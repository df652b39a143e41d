//! Houses: access lists of invited players and guilds, doors, owners, rent,
//! and the registry of all houses.
use vstd::prelude::*;
use std::collections::BTreeMap;
use crate::map::Position;
use crate::map::tile::MapItem;
use crate::map::serialize::{ItemTree, lemma_trees_pointwise, tree_of, trees_of};
use crate::util::text::{
    chars_of, drop_white_space_end, is_white_space, lowercase, skip_white_space, string_push,
    string_from_chars, to_lowercase, trim, trim_end, trim_start, utf8_len, utf8_len_within,
};

verus! {

/// The list id of a house's guest list.
pub const GUEST_LIST: u32 = 0x100;
/// The list id of a house's sub-owner list.
pub const SUBOWNER_LIST: u32 = 0x101;
/// Only this many lines of an access list are read.
pub const MAX_ACCESS_LIST_LINES: usize = 100;
/// Longer lines (in UTF-8 bytes) of an access list are ignored.
pub const MAX_ACCESS_LINE_LENGTH: usize = 100;

/// The abstract content of an access list.
pub ghost struct AccessView {
    pub list: Seq<char>,
    pub players: Set<Seq<char>>,
    pub guilds: Set<Seq<char>>,
    pub expressions: Seq<Seq<char>>,
    pub everyone: bool,
}

/// The index of the first `c` in `s` at or after `i`, or -1.
pub open spec fn index_of_from(s: Seq<char>, c: char, i: int) -> int
    decreases s.len() - i,
{
    if i < 0 || i >= s.len() {
        -1
    } else if s[i] == c {
        i
    } else {
        index_of_from(s, c, i + 1)
    }
}

/// The index of the first line break at or after `from`, or the length of `s`.
pub open spec fn next_line_break(s: Seq<char>, from: int) -> int
    decreases s.len() - from,
{
    if from < 0 || from >= s.len() {
        s.len() as int
    } else if s[from] == '\n' {
        from
    } else {
        next_line_break(s, from + 1)
    }
}

/// A line break found from `from` lies between `from` and the end.
pub proof fn lemma_next_line_break_bounds(s: Seq<char>, from: int)
    requires
        0 <= from <= s.len(),
    ensures
        from <= next_line_break(s, from) <= s.len(),
    decreases s.len() - from,
{
    if from < s.len() && s[from] != '\n' {
        lemma_next_line_break_bounds(s, from + 1);
    }
}

/// The lines of `s` from `from` on, split at line breaks; a final line break
/// ends the last line rather than starting an empty one (`str::lines`; a
/// carriage return before a break stays in the line, where trimming drops it).
pub open spec fn lines_from(s: Seq<char>, from: int) -> Seq<Seq<char>>
    decreases s.len() + 1 - from,
{
    if from < 0 || from >= s.len() {
        Seq::empty()
    } else {
        let e = next_line_break(s, from);
        proof {
            lemma_next_line_break_bounds(s, from);
        }
        seq![s.subrange(from, e)] + lines_from(s, e + 1)
    }
}

/// The expression that stands for a rank of a guild.
pub open spec fn guild_rank_expression(guild: Seq<char>, rank: Seq<char>) -> Seq<char> {
    guild + seq!['@'] + rank
}

/// What one line of an access list adds, the line trimmed: nothing for
/// empty, comment or over-long lines; else, the line taken in lower case, a
/// guild for `@guild`, a guild rank for `guild@rank`, everyone for `*`,
/// nothing for other patterns with `!`, `*` or `?`, a player name otherwise.
pub open spec fn apply_access_line(v: AccessView, raw: Seq<char>) -> AccessView {
    let line = trim(raw);
    if line.len() == 0 || line[0] == '#' || utf8_len(line) > MAX_ACCESS_LINE_LENGTH {
        v
    } else {
        classify_access_line(v, lowercase(line))
    }
}

/// What an accepted, lower-cased access list line adds (see
/// `apply_access_line`).
pub open spec fn classify_access_line(v: AccessView, line: Seq<char>) -> AccessView {
    let at = index_of_from(line, '@', 0);
    if at == 0 {
        AccessView { guilds: v.guilds.insert(line.skip(1)), ..v }
    } else if at > 0 {
        AccessView {
            expressions: v.expressions.push(
                guild_rank_expression(trim_end(line.take(at)), trim_start(line.skip(at + 1))),
            ),
            ..v
        }
    } else if line == seq!['*'] {
        AccessView { everyone: true, ..v }
    } else if line.contains('!') || line.contains('*') || line.contains('?') {
        v
    } else {
        AccessView { players: v.players.insert(line), ..v }
    }
}

/// The effect of a sequence of lines, in order.
pub open spec fn apply_access_lines(v: AccessView, lines: Seq<Seq<char>>) -> AccessView
    decreases lines.len(),
{
    if lines.len() == 0 {
        v
    } else {
        apply_access_line(apply_access_lines(v, lines.drop_last()), lines.last())
    }
}

/// The access list that the text `list` describes: its first hundred lines
/// applied to an empty list.
pub open spec fn parsed_access_list(list: Seq<char>) -> AccessView {
    let empty = AccessView {
        list,
        players: Set::empty(),
        guilds: Set::empty(),
        expressions: Seq::empty(),
        everyone: false,
    };
    let lines = lines_from(list, 0);
    if lines.len() <= MAX_ACCESS_LIST_LINES {
        apply_access_lines(empty, lines)
    } else {
        apply_access_lines(empty, lines.take(MAX_ACCESS_LIST_LINES as int))
    }
}

/// Whether an access list admits a player, given the lower-cased player
/// name, guild name and guild rank name.
pub open spec fn admits(v: AccessView, name: Seq<char>, guild: Seq<char>, rank: Seq<char>) -> bool {
    ||| v.everyone
    ||| v.players.contains(name)
    ||| (guild.len() > 0 && v.guilds.contains(guild))
    ||| (guild.len() > 0 && rank.len() > 0 && v.expressions.contains(
        guild_rank_expression(guild, rank),
    ))
}

/// The view of a list of strings as a set of character sequences.
pub open spec fn string_set(v: Seq<String>) -> Set<Seq<char>> {
    Set::new(|n: Seq<char>| exists|i: int| 0 <= i < v.len() && (#[trigger] v[i])@ == n)
}

/// The view of a list of strings as a sequence of character sequences.
pub open spec fn string_seq(v: Seq<String>) -> Seq<Seq<char>> {
    v.map_values(|s: String| s@)
}

fn strings_contain(v: &Vec<String>, s: &String) -> (found: bool)
    ensures
        found == string_set(v@).contains(s@),
{
    let mut i: usize = 0;
    while i < v.len()
        invariant
            i <= v@.len(),
            forall|j: int| 0 <= j < i ==> v@[j]@ != s@,
        decreases v@.len() - i,
    {
        if v[i] == *s {
            assert(string_set(v@).contains(s@)) by {
                assert(v@[i as int]@ == s@);
            }
            return true;
        }
        i = i + 1;
    }
    false
}

fn strings_push_unique(v: &mut Vec<String>, s: String)
    ensures
        string_set(final(v)@) == string_set(old(v)@).insert(s@),
{
    if !strings_contain(v, &s) {
        let ghost before = v@;
        let ghost sv = s@;
        v.push(s);
        proof {
            assert forall|n: Seq<char>| string_set(v@).contains(n) == string_set(before).insert(sv).contains(n) by {
                if string_set(v@).contains(n) {
                    let i = choose|i: int| 0 <= i < v@.len() && (#[trigger] v@[i])@ == n;
                    if i < before.len() {
                        assert(before[i] == v@[i]);
                    }
                }
                if string_set(before).contains(n) {
                    let i = choose|i: int| 0 <= i < before.len() && (#[trigger] before[i])@ == n;
                    assert(v@[i] == before[i]);
                }
                if n == sv {
                    assert(v@[before.len() as int]@ == sv);
                }
            }
            assert(string_set(v@) =~= string_set(before).insert(sv));
        }
    } else {
        assert(string_set(v@) =~= string_set(v@).insert(s@));
    }
}

fn seq_contains_string(v: &Vec<String>, s: &String) -> (found: bool)
    ensures
        found == string_seq(v@).contains(s@),
{
    let found = strings_contain(v, s);
    proof {
        if found {
            let i = choose|i: int| 0 <= i < v@.len() && (#[trigger] v@[i])@ == s@;
            assert(string_seq(v@)[i] == s@);
        } else {
            if string_seq(v@).contains(s@) {
                let i = choose|i: int| 0 <= i < string_seq(v@).len() && string_seq(v@)[i] == s@;
                assert(v@[i]@ == s@);
                assert(string_set(v@).contains(s@));
            }
        }
    }
    found
}

/// A house access list: the text it was parsed from, the invited players,
/// whole guilds, guild ranks, and whether everyone is invited.
#[derive(Debug, Clone)]
pub struct AccessList {
    pub list: String,
    pub player_list: Vec<String>,
    pub guild_list: Vec<String>,
    pub expression_list: Vec<String>,
    pub allow_everyone: bool,
}

impl View for AccessList {
    type V = AccessView;

    open spec fn view(&self) -> AccessView {
        AccessView {
            list: self.list@,
            players: string_set(self.player_list@),
            guilds: string_set(self.guild_list@),
            expressions: string_seq(self.expression_list@),
            everyone: self.allow_everyone,
        }
    }
}

impl Default for AccessList {
    fn default() -> (al: Self)
        ensures
            al@ == empty_access_view(),
    {
        AccessList::new()
    }
}

impl AccessList {
    /// An empty access list.
    pub fn new() -> (al: Self)
        ensures
            al@ == (AccessView {
                list: Seq::empty(),
                players: Set::empty(),
                guilds: Set::empty(),
                expressions: Seq::empty(),
                everyone: false,
            }),
    {
        let al = AccessList {
            list: String::new(),
            player_list: Vec::new(),
            guild_list: Vec::new(),
            expression_list: Vec::new(),
            allow_everyone: false,
        };
        assert(string_set(al.player_list@) =~= Set::empty());
        assert(string_set(al.guild_list@) =~= Set::empty());
        assert(string_seq(al.expression_list@) =~= Seq::empty());
        al
    }

    /// Invites the player `name`.
    pub fn add_player(&mut self, name: &str)
        ensures
            final(self)@ == (AccessView { players: old(self)@.players.insert(name@), ..old(self)@ }),
    {
        strings_push_unique(&mut self.player_list, name.to_owned());
    }

    /// Invites the whole guild `name`.
    pub fn add_guild(&mut self, name: &str)
        ensures
            final(self)@ == (AccessView { guilds: old(self)@.guilds.insert(name@), ..old(self)@ }),
    {
        strings_push_unique(&mut self.guild_list, name.to_owned());
    }

    /// Invites the rank `rank_name` of the guild `guild_name`.
    pub fn add_guild_rank(&mut self, guild_name: &str, rank_name: &str)
        ensures
            final(self)@ == (AccessView {
                expressions: old(self)@.expressions.push(
                    guild_rank_expression(guild_name@, rank_name@),
                ),
                ..old(self)@
            }),
    {
        let mut expression = guild_name.to_owned();
        string_push(&mut expression, '@');
        let rank_chars = chars_of(rank_name);
        let mut i: usize = 0;
        while i < rank_chars.len()
            invariant
                i <= rank_chars@.len(),
                expression@ =~= guild_name@ + seq!['@'] + rank_chars@.take(i as int),
            decreases rank_chars@.len() - i,
        {
            string_push(&mut expression, rank_chars[i]);
            i = i + 1;
        }
        assert(rank_chars@.take(rank_chars@.len() as int) =~= rank_name@);
        let ghost before = self.expression_list@;
        self.expression_list.push(expression);
        assert(string_seq(self.expression_list@) =~= string_seq(before).push(
            guild_rank_expression(guild_name@, rank_name@),
        ));
    }

    fn apply_line(&mut self, chars: &Vec<char>, lo: usize, hi: usize)
        requires
            lo <= hi <= chars@.len(),
        ensures
            final(self)@ == apply_access_line(old(self)@, chars@.subrange(lo as int, hi as int)),
    {
        let ghost raw = chars@.subrange(lo as int, hi as int);
        let a = skip_white_space(chars, lo, hi);
        let b = drop_white_space_end(chars, a, hi);
        let ghost line = chars@.subrange(a as int, b as int);
        assert(trim(raw) == line);
        if a == b || chars[a] == '#' {
            return;
        }
        match utf8_len_within(chars, a, b, MAX_ACCESS_LINE_LENGTH) {
            None => {
                return;
            },
            Some(_) => {},
        }
        let trimmed = string_from_chars(chars, a, b);
        let lowered = to_lowercase(trimmed.as_str());
        let low = chars_of(lowered.as_str());
        let n = low.len();
        self.apply_classified(&low, 0, n);
        assert(low@.subrange(0, n as int) =~= low@);
    }

    fn apply_classified(&mut self, chars: &Vec<char>, a: usize, b: usize)
        requires
            a <= b <= chars@.len(),
        ensures
            final(self)@ == classify_access_line(old(self)@, chars@.subrange(a as int, b as int)),
    {
        let ghost line = chars@.subrange(a as int, b as int);
        let mut at = a;
        while at < b && chars[at] != '@'
            invariant
                a <= at <= b,
                b <= chars@.len(),
                line == chars@.subrange(a as int, b as int),
                forall|k: int| a <= k < at ==> chars@[k] != '@',
                index_of_from(line, '@', 0) == index_of_from(line, '@', at - a),
            decreases b - at,
        {
            at = at + 1;
        }
        proof {
            if at < b {
                assert(line[at - a] == '@');
            }
        }
        if at < b && at == a {
            let guild = string_from_chars(chars, a + 1, b);
            proof {
                assert(guild@ =~= line.skip(1));
            }
            self.add_guild(guild.as_str());
        } else if at < b {
            let name_end = drop_white_space_end(chars, a, at);
            let rank_start = skip_white_space(chars, at + 1, b);
            let guild = string_from_chars(chars, a, name_end);
            let rank = string_from_chars(chars, rank_start, b);
            proof {
                let k = at - a;
                assert(line.take(k) =~= chars@.subrange(a as int, at as int));
                assert(line.skip(k + 1) =~= chars@.subrange(at + 1, b as int));
            }
            self.add_guild_rank(guild.as_str(), rank.as_str());
        } else {
            proof {
                assert(index_of_from(line, '@', b - a) == -1);
            }
            let mut special = false;
            let mut k = a;
            while k < b
                invariant
                    a <= k <= b,
                    b <= chars@.len(),
                    line == chars@.subrange(a as int, b as int),
                    special == exists|j: int|
                        a <= j < k && (chars@[j] == '!' || chars@[j] == '*' || chars@[j] == '?'),
                decreases b - k,
            {
                if chars[k] == '!' || chars[k] == '*' || chars[k] == '?' {
                    special = true;
                }
                k = k + 1;
            }
            proof {
                if special {
                    let j = choose|j: int|
                        a <= j < b && (chars@[j] == '!' || chars@[j] == '*' || chars@[j] == '?');
                    assert(line[j - a] == chars@[j]);
                } else {
                    assert forall|j: int| 0 <= j < line.len() implies line[j] != '!' && line[j] != '*'
                        && line[j] != '?' by {
                        assert(line[j] == chars@[a + j]);
                    }
                }
            }
            if b - a == 1 && chars[a] == '*' {
                assert(line =~= seq!['*']);
                self.allow_everyone = true;
            } else if special {
                proof {
                    if line == seq!['*'] {
                        assert(line[0] == chars@[a as int]);
                    }
                }
            } else {
                let name = string_from_chars(chars, a, b);
                self.add_player(name.as_str());
            }
        }
    }

    fn next_break(chars: &Vec<char>, from: usize) -> (e: usize)
        requires
            from <= chars@.len(),
        ensures
            e == next_line_break(chars@, from as int),
            from <= e <= chars@.len(),
    {
        let mut e = from;
        while e < chars.len() && chars[e] != '\n'
            invariant
                from <= e <= chars@.len(),
                next_line_break(chars@, from as int) == next_line_break(chars@, e as int),
            decreases chars@.len() - e,
        {
            e = e + 1;
        }
        e
    }

    /// Replaces the list by the one that the text `list` describes (see
    /// `parsed_access_list`).
    pub fn parse_list(&mut self, list: &str)
        ensures
            final(self)@ == parsed_access_list(list@),
    {
        self.player_list.clear();
        self.guild_list.clear();
        self.expression_list.clear();
        self.allow_everyone = false;
        self.list = list.to_owned();
        proof {
            assert(string_set(self.player_list@) =~= Set::empty());
            assert(string_set(self.guild_list@) =~= Set::empty());
            assert(string_seq(self.expression_list@) =~= Seq::empty());
        }
        let ghost empty = self@;
        if list.is_empty() {
            assert(lines_from(list@, 0) =~= Seq::<Seq<char>>::empty());
            return;
        }
        let chars = chars_of(list);
        let n = chars.len();
        let mut from: usize = 0;
        let mut count: usize = 0;
        let ghost mut done: Seq<Seq<char>> = Seq::empty();
        while from < n && count < MAX_ACCESS_LIST_LINES
            invariant
                n == chars@.len(),
                chars@ == list@,
                from <= n,
                count == done.len(),
                count <= MAX_ACCESS_LIST_LINES,
                lines_from(list@, 0) == done + lines_from(list@, from as int),
                self@ == apply_access_lines(empty, done),
                empty == (AccessView {
                    list: list@,
                    players: Set::empty(),
                    guilds: Set::empty(),
                    expressions: Seq::empty(),
                    everyone: false,
                }),
            decreases n - from,
        {
            let e = Self::next_break(&chars, from);
            self.apply_line(&chars, from, e);
            proof {
                let line = chars@.subrange(from as int, e as int);
                assert(lines_from(list@, from as int) == seq![line] + lines_from(list@, e + 1));
                assert(done + lines_from(list@, from as int) =~= done.push(line) + lines_from(
                    list@,
                    e + 1,
                ));
                assert(done.push(line).drop_last() =~= done);
                done = done.push(line);
            }
            count = count + 1;
            if e < n {
                from = e + 1;
            } else {
                assert(lines_from(list@, e + 1) =~= lines_from(list@, n as int));
                from = n;
            }
        }
        proof {
            let all = lines_from(list@, 0);
            if from >= n {
                assert(lines_from(list@, from as int) =~= Seq::<Seq<char>>::empty());
                assert(all =~= done);
            } else {
                assert(lines_from(list@, from as int).len() > 0);
                assert(all.take(MAX_ACCESS_LIST_LINES as int) =~= done);
            }
        }
    }
}

/// Whether an access list admits a player, given the lower-cased forms of
/// the player's name and, where present, of the guild and rank names.
pub open spec fn admits_raw(v: AccessView, name: Seq<char>, guild: Seq<char>, rank: Seq<char>) -> bool {
    admits(
        v,
        lowercase(name),
        if guild.len() == 0 { Seq::empty() } else { lowercase(guild) },
        if guild.len() == 0 || rank.len() == 0 { Seq::empty() } else { lowercase(rank) },
    )
}

impl AccessList {
    /// Whether the list admits a player whose name, guild name and guild
    /// rank name are given already lower-cased (an empty guild or rank
    /// name stands for none).
    pub fn is_in_list_lowered(&self, name: &str, guild: &str, rank: &str) -> (r: bool)
        ensures
            r == admits(self@, name@, guild@, rank@),
    {
        if self.allow_everyone {
            return true;
        }
        let name = name.to_owned();
        if strings_contain(&self.player_list, &name) {
            return true;
        }
        if !guild.is_empty() {
            let g = guild.to_owned();
            if strings_contain(&self.guild_list, &g) {
                return true;
            }
            if !rank.is_empty() {
                let mut expression = g;
                string_push(&mut expression, '@');
                let rank_chars = chars_of(rank);
                let mut i: usize = 0;
                while i < rank_chars.len()
                    invariant
                        i <= rank_chars@.len(),
                        expression@ =~= guild@ + seq!['@'] + rank_chars@.take(i as int),
                    decreases rank_chars@.len() - i,
                {
                    string_push(&mut expression, rank_chars[i]);
                    i = i + 1;
                }
                assert(rank_chars@.take(rank_chars@.len() as int) =~= rank@);
                if seq_contains_string(&self.expression_list, &expression) {
                    return true;
                }
            }
        }
        false
    }

    /// Whether the list admits a player with this name, guild name and
    /// guild rank name (an empty guild or rank name stands for none); the
    /// names are compared in lower case.
    pub fn is_in_list(&self, name: &str, guild_name: &str, guild_rank_name: &str) -> (r: bool)
        ensures
            r == admits_raw(self@, name@, guild_name@, guild_rank_name@),
    {
        let name_lower = to_lowercase(name);
        let guild_lower = if guild_name.is_empty() {
            String::new()
        } else {
            to_lowercase(guild_name)
        };
        let rank_lower = if guild_name.is_empty() || guild_rank_name.is_empty() {
            String::new()
        } else {
            to_lowercase(guild_rank_name)
        };
        self.is_in_list_lowered(name_lower.as_str(), guild_lower.as_str(), rank_lower.as_str())
    }

    /// The text the list was parsed from.
    pub fn get_list(&self) -> (r: &str)
        ensures
            r@ == self@.list,
    {
        self.list.as_str()
    }
}

/// A house door with its own access list.
#[derive(Debug, Clone)]
pub struct Door {
    pub door_id: u32,
    pub house_id: u32,
    pub access_list: Option<AccessList>,
}

impl Door {
    /// A door without an access list.
    pub fn new(door_id: u32, house_id: u32) -> (d: Self)
        ensures
            d.door_id == door_id,
            d.house_id == house_id,
            d.access_list is None,
    {
        Door { door_id, house_id, access_list: None }
    }

    /// The door's number within its house.
    pub fn get_door_id(&self) -> (r: u32)
        ensures
            r == self.door_id,
    {
        self.door_id
    }

    /// Gives the door the access list that `text_list` describes.
    pub fn set_access_list(&mut self, text_list: &str)
        ensures
            final(self).door_id == old(self).door_id,
            final(self).house_id == old(self).house_id,
            final(self).access_list matches Some(al) && al@ == parsed_access_list(text_list@),
    {
        let mut al = match self.access_list.take() {
            Some(al) => al,
            None => AccessList::new(),
        };
        al.parse_list(text_list);
        self.access_list = Some(al);
    }

    /// The text of the door's access list, if it has one.
    pub fn get_access_list(&self) -> (r: Option<&str>)
        ensures
            match self.access_list {
                Some(al) => r matches Some(t) && t@ == al@.list,
                None => r is None,
            },
    {
        match &self.access_list {
            Some(al) => Some(al.get_list()),
            None => None,
        }
    }

    /// Whether the door's own access list admits the player; a door
    /// without a list admits nobody.
    pub fn is_player_allowed(&self, player_name: &str, guild_name: &str, guild_rank_name: &str) -> (r: bool)
        ensures
            r == match self.access_list {
                Some(al) => admits_raw(al@, player_name@, guild_name@, guild_rank_name@),
                None => false,
            },
    {
        match &self.access_list {
            Some(al) => al.is_in_list(player_name, guild_name, guild_rank_name),
            None => false,
        }
    }

    /// Whether a player may use the door: every player may, since the
    /// owner and sub-owner check lives with the game state.
    pub fn can_use(&self, player_id: u32) -> (r: bool)
        ensures
            r,
    {
        true
    }

    /// Called when the door leaves the map; a door keeps no link to its
    /// house, so nothing changes.
    pub fn on_removed(&mut self)
        ensures
            *final(self) == *old(self),
    {
    }

    /// Reads a serialized door attribute; none is understood here.
    pub fn read_attr(&mut self, attr: u8, prop_stream: &[u8]) -> (r: bool)
        ensures
            !r,
            *final(self) == *old(self),
    {
        false
    }
}

/// How far a player may enter and manage a house; ordered from least to
/// most.
#[derive(Debug, Clone, Copy, PartialEq, Eq, Structural, PartialOrd, Ord)]
pub enum AccessHouseLevel {
    NotInvited,
    Guest,
    Subowner,
    Owner,
}

/// How often house rent is due.
#[derive(Debug, Clone, Copy, PartialEq, Eq, Structural)]
pub enum RentPeriod {
    Daily,
    Weekly,
    Monthly,
    Yearly,
    Never,
}

/// The item handed over when a house is sold to another player.
#[derive(Debug, Clone, Copy, PartialEq, Eq, Structural)]
pub struct HouseTransferItem {
    pub house_id: u32,
}

impl HouseTransferItem {
    /// The transfer item of house `house_id`.
    pub fn create(house_id: u32) -> (t: Self)
        ensures
            t.house_id == house_id,
    {
        HouseTransferItem { house_id }
    }

    /// Reacts to a trade event; no trade is carried out here.
    pub fn on_trade_event(&self, event: u8, buyer_id: u32) -> (r: bool)
        ensures
            !r,
    {
        false
    }
}

/// A house: its identity and place, its owner and rent, its tiles, doors
/// and beds, its guest and sub-owner lists, and a pending sale.
#[derive(Debug, Clone)]
pub struct House {
    pub id: u32,
    pub name: String,
    pub owner_name: String,
    pub entry_position: Position,
    pub rent: u32,
    pub town_id: u32,
    pub owner: u32,
    pub owner_account_id: u32,
    pub paid_until: i64,
    pub rent_warnings: u32,
    pub is_loaded: bool,
    pub tiles: Vec<Position>,
    pub doors: BTreeMap<u8, Position>,
    pub beds: Vec<Position>,
    pub guest_list: AccessList,
    pub sub_owner_list: AccessList,
    pub transfer_item: Option<HouseTransferItem>,
}

/// The empty access list view.
pub open spec fn empty_access_view() -> AccessView {
    AccessView {
        list: Seq::empty(),
        players: Set::empty(),
        guilds: Set::empty(),
        expressions: Seq::empty(),
        everyone: false,
    }
}

/// A house with number `id` and nothing else: no name, owner, rent,
/// tiles, doors, beds or invitations.
pub open spec fn is_fresh_house(h: House, id: u32) -> bool {
    &&& h.id == id
    &&& h.name@ == Seq::<char>::empty()
    &&& h.owner_name@ == Seq::<char>::empty()
    &&& h.entry_position == Position { x: 0, y: 0, z: 0 }
    &&& h.rent == 0
    &&& h.town_id == 0
    &&& h.owner == 0
    &&& h.owner_account_id == 0
    &&& h.paid_until == 0
    &&& h.rent_warnings == 0
    &&& !h.is_loaded
    &&& h.tiles@ == Seq::<Position>::empty()
    &&& h.doors@ == Map::<u8, Position>::empty()
    &&& h.beds@ == Seq::<Position>::empty()
    &&& h.guest_list@ == empty_access_view()
    &&& h.sub_owner_list@ == empty_access_view()
    &&& h.transfer_item is None
}

impl House {
    /// A house with number `id` and nothing else.
    pub fn with_id(id: u32) -> (h: House)
        ensures
            is_fresh_house(h, id),
    {
        House {
            id,
            name: String::new(),
            owner_name: String::new(),
            entry_position: Position { x: 0, y: 0, z: 0 },
            rent: 0,
            town_id: 0,
            owner: 0,
            owner_account_id: 0,
            paid_until: 0,
            rent_warnings: 0,
            is_loaded: false,
            tiles: Vec::new(),
            doors: BTreeMap::new(),
            beds: Vec::new(),
            guest_list: AccessList::new(),
            sub_owner_list: AccessList::new(),
            transfer_item: None,
        }
    }

    /// Adds a tile to the house.
    pub fn add_tile(&mut self, position: Position)
        ensures
            final(self).tiles@ == old(self).tiles@.push(position),
            *final(self) == (House { tiles: final(self).tiles, ..*old(self) }),
    {
        self.tiles.push(position);
    }

    /// Records door `door_id` at `position`; door number 0 is no door and
    /// is ignored.
    pub fn add_door(&mut self, door_id: u8, position: Position)
        ensures
            final(self).doors@ == if door_id != 0 {
                old(self).doors@.insert(door_id, position)
            } else {
                old(self).doors@
            },
            *final(self) == (House { doors: final(self).doors, ..*old(self) }),
    {
        if door_id != 0 {
            self.doors.insert(door_id, position);
        }
    }

    /// Adds a bed to the house.
    pub fn add_bed(&mut self, position: Position)
        ensures
            final(self).beds@ == old(self).beds@.push(position),
            *final(self) == (House { beds: final(self).beds, ..*old(self) }),
    {
        self.beds.push(position);
    }

    /// The house number.
    pub fn get_id(&self) -> (r: u32)
        ensures
            r == self.id,
    {
        self.id
    }

    /// The house name.
    pub fn get_name(&self) -> (r: &str)
        ensures
            r@ == self.name@,
    {
        self.name.as_str()
    }

    /// Where a player enters the house.
    pub fn get_entry_position(&self) -> (r: Position)
        ensures
            r == self.entry_position,
    {
        self.entry_position
    }

    /// The rent.
    pub fn get_rent(&self) -> (r: u32)
        ensures
            r == self.rent,
    {
        self.rent
    }

    /// The town the house belongs to.
    pub fn get_town_id(&self) -> (r: u32)
        ensures
            r == self.town_id,
    {
        self.town_id
    }

    /// The owner's character id (0 for none).
    pub fn get_owner(&self) -> (r: u32)
        ensures
            r == self.owner,
    {
        self.owner
    }

    /// Sets the owner's character id.
    pub fn set_owner(&mut self, owner: u32)
        ensures
            *final(self) == (House { owner, ..*old(self) }),
    {
        self.owner = owner;
    }

    /// The number of beds.
    pub fn get_bed_count(&self) -> (r: usize)
        ensures
            r == self.beds@.len(),
    {
        self.beds.len()
    }

    /// Where door `door_id` stands, if the house has it.
    pub fn get_door_by_number(&self, door_id: u8) -> (r: Option<Position>)
        ensures
            r == if self.doors@.contains_key(door_id) {
                Some(self.doors@[door_id])
            } else {
                None
            },
    {
        match self.doors.get(&door_id) {
            Some(p) => Some(*p),
            None => None,
        }
    }

    /// Forgets door `door_id`.
    pub fn remove_door(&mut self, door_id: u8)
        ensures
            final(self).doors@ == old(self).doors@.remove(door_id),
            *final(self) == (House { doors: final(self).doors, ..*old(self) }),
    {
        self.doors.remove(&door_id);
    }

    /// The lowest-numbered door that stands at `pos`, if any does.
    pub fn get_door_by_position(&self, pos: Position) -> (r: Option<u8>)
        ensures
            match r {
                Some(id) => self.doors@.contains_key(id) && self.doors@[id] == pos
                    && forall|k: u8| #![trigger self.doors@[k]]
                        k < id && self.doors@.contains_key(k) ==> self.doors@[k] != pos,
                None => forall|k: u8| #![trigger self.doors@[k]]
                    self.doors@.contains_key(k) ==> self.doors@[k] != pos,
            },
    {
        let mut k: u16 = 0;
        while k < 256
            invariant
                k <= 256,
                forall|j: u8| #![trigger self.doors@[j]]
                    j < k && self.doors@.contains_key(j) ==> self.doors@[j] != pos,
            decreases 256 - k,
        {
            let id = k as u8;
            match self.doors.get(&id) {
                Some(p) => {
                    if *p == pos {
                        return Some(id);
                    }
                },
                None => {},
            }
            k = k + 1;
        }
        None
    }

    /// The time up to which rent is paid.
    pub fn get_paid_until(&self) -> (r: i64)
        ensures
            r == self.paid_until,
    {
        self.paid_until
    }

    /// Sets the time up to which rent is paid.
    pub fn set_paid_until(&mut self, paid: i64)
        ensures
            *final(self) == (House { paid_until: paid, ..*old(self) }),
    {
        self.paid_until = paid;
    }

    /// The number of rent warnings given.
    pub fn get_pay_rent_warnings(&self) -> (r: u32)
        ensures
            r == self.rent_warnings,
    {
        self.rent_warnings
    }

    /// Sets the number of rent warnings given.
    pub fn set_pay_rent_warnings(&mut self, warnings: u32)
        ensures
            *final(self) == (House { rent_warnings: warnings, ..*old(self) }),
    {
        self.rent_warnings = warnings;
    }

    /// Replaces the guest list or the sub-owner list by the one that
    /// `text_list` describes; other list ids (doors) change nothing here.
    pub fn set_access_list(&mut self, list_id: u32, text_list: &str)
        ensures
            list_id == GUEST_LIST ==> final(self).guest_list@ == parsed_access_list(text_list@)
                && *final(self) == (House { guest_list: final(self).guest_list, ..*old(self) }),
            list_id == SUBOWNER_LIST ==> final(self).sub_owner_list@ == parsed_access_list(
                text_list@,
            ) && *final(self) == (House { sub_owner_list: final(self).sub_owner_list, ..*old(self) }),
            list_id != GUEST_LIST && list_id != SUBOWNER_LIST ==> *final(self) == *old(self),
    {
        if list_id == GUEST_LIST {
            self.guest_list.parse_list(text_list);
        } else if list_id == SUBOWNER_LIST {
            self.sub_owner_list.parse_list(text_list);
        }
    }

    /// The text of the guest list or of the sub-owner list; `None` for
    /// other list ids.
    pub fn get_access_list(&self, list_id: u32) -> (r: Option<&str>)
        ensures
            list_id == GUEST_LIST ==> (r matches Some(t) && t@ == self.guest_list@.list),
            list_id == SUBOWNER_LIST ==> (r matches Some(t) && t@ == self.sub_owner_list@.list),
            list_id != GUEST_LIST && list_id != SUBOWNER_LIST ==> r is None,
    {
        if list_id == GUEST_LIST {
            return Some(self.guest_list.get_list());
        }
        if list_id == SUBOWNER_LIST {
            return Some(self.sub_owner_list.get_list());
        }
        None
    }

    /// Whether the guest list or the sub-owner list admits the player.
    pub fn is_invited_by_name(&self, name: &str, guild_name: &str, guild_rank_name: &str) -> (r: bool)
        ensures
            r == (admits_raw(self.guest_list@, name@, guild_name@, guild_rank_name@)
                || admits_raw(self.sub_owner_list@, name@, guild_name@, guild_rank_name@)),
    {
        self.guest_list.is_in_list(name, guild_name, guild_rank_name)
            || self.sub_owner_list.is_in_list(name, guild_name, guild_rank_name)
    }

    /// Whether a player with `access_level` may edit list `list_id`: an
    /// owner any list, a sub-owner only the guest list.
    pub fn can_edit_access_list(&self, list_id: u32, access_level: AccessHouseLevel) -> (r: bool)
        ensures
            r == can_edit_list(list_id, access_level),
    {
        match access_level {
            AccessHouseLevel::Owner => true,
            AccessHouseLevel::Subowner => list_id == GUEST_LIST,
            _ => false,
        }
    }

    /// The access level of a player in this house (see `house_access_level`).
    pub fn access_level_for(
        &self,
        guid: u32,
        account_id: u32,
        can_edit_houses: bool,
        owned_by_account: bool,
        name: &str,
        guild_name: &str,
        guild_rank: &str,
    ) -> (r: AccessHouseLevel)
        ensures
            r == house_access_level(
                *self,
                guid,
                account_id,
                can_edit_houses,
                owned_by_account,
                name@,
                guild_name@,
                guild_rank@,
            ),
    {
        if owned_by_account && self.owner_account_id == account_id {
            return AccessHouseLevel::Owner;
        }
        if can_edit_houses {
            return AccessHouseLevel::Owner;
        }
        if guid != 0 && guid == self.owner {
            return AccessHouseLevel::Owner;
        }
        if self.sub_owner_list.is_in_list(name, guild_name, guild_rank) {
            return AccessHouseLevel::Subowner;
        }
        if self.guest_list.is_in_list(name, guild_name, guild_rank) {
            return AccessHouseLevel::Guest;
        }
        AccessHouseLevel::NotInvited
    }

    /// The item that hands the house over in a trade, made on first use.
    pub fn get_transfer_item(&mut self) -> (t: &mut HouseTransferItem)
        ensures
            *t == match old(self).transfer_item {
                Some(t) => t,
                None => HouseTransferItem { house_id: old(self).id },
            },
            *final(self) == (House { transfer_item: Some(*final(t)), ..*old(self) }),
    {
        if self.transfer_item.is_none() {
            self.transfer_item = Some(HouseTransferItem::create(self.id));
        }
        match &mut self.transfer_item {
            Some(t) => t,
            None => vstd::pervasive::unreached(),
        }
    }

    /// Drops a pending sale.
    pub fn reset_transfer_item(&mut self)
        ensures
            *final(self) == (House { transfer_item: None, ..*old(self) }),
    {
        self.transfer_item = None;
    }

    /// Asks a player to leave the house; moving creatures belongs to the
    /// game state, so the house itself is left as it is.
    pub fn kick_player(&mut self, player_id: u32)
        ensures
            *final(self) == *old(self),
    {
    }

    /// Refreshes the door descriptions; doors carry no description here.
    pub fn update_door_description(&self) {
    }

    /// Completes a sale; this needs the game state, so here it is refused.
    pub fn execute_transfer(&mut self, item: &HouseTransferItem, new_owner_id: u32) -> (r: bool)
        ensures
            !r,
            *final(self) == *old(self),
    {
        false
    }
}

/// Whether a player with `level` may edit list `list_id`.
pub open spec fn can_edit_list(list_id: u32, level: AccessHouseLevel) -> bool {
    match level {
        AccessHouseLevel::Owner => true,
        AccessHouseLevel::Subowner => list_id == GUEST_LIST,
        _ => false,
    }
}

/// The access level of a player in house `h`: owner for the owning account
/// (where houses are owned by accounts), for a player who may edit houses,
/// and for the owning character; else sub-owner, guest or not invited, by
/// the house's lists.
pub open spec fn house_access_level(
    h: House,
    guid: u32,
    account_id: u32,
    can_edit_houses: bool,
    owned_by_account: bool,
    name: Seq<char>,
    guild: Seq<char>,
    rank: Seq<char>,
) -> AccessHouseLevel {
    if owned_by_account && h.owner_account_id == account_id {
        AccessHouseLevel::Owner
    } else if can_edit_houses {
        AccessHouseLevel::Owner
    } else if guid != 0 && guid == h.owner {
        AccessHouseLevel::Owner
    } else if admits_raw(h.sub_owner_list@, name, guild, rank) {
        AccessHouseLevel::Subowner
    } else if admits_raw(h.guest_list@, name, guild, rank) {
        AccessHouseLevel::Guest
    } else {
        AccessHouseLevel::NotInvited
    }
}

/// Whether a player is none of the house's owners: not the owning account
/// (where houses are owned by accounts) and not the owning character.
pub open spec fn not_owner(h: House, guid: u32, account_id: u32, owned_by_account: bool) -> bool {
    !(owned_by_account && h.owner_account_id == account_id) && !(guid != 0 && guid == h.owner)
}

/// A player who does not own the house, may not edit houses, and whose
/// guild (any case; its lower-case form not empty) is on the sub-owner list is a sub-owner, whatever the
/// name and rank; with the guild only on the guest list, at least a guest.
pub proof fn law_listed_guild_invited(
    h: House,
    guid: u32,
    account_id: u32,
    owned_by_account: bool,
    name: Seq<char>,
    guild: Seq<char>,
    rank: Seq<char>,
)
    requires
        not_owner(h, guid, account_id, owned_by_account),
        guild.len() > 0,
        lowercase(guild).len() > 0,
    ensures
        h.sub_owner_list@.guilds.contains(lowercase(guild)) ==> house_access_level(
            h,
            guid,
            account_id,
            false,
            owned_by_account,
            name,
            guild,
            rank,
        ) == AccessHouseLevel::Subowner,
        h.guest_list@.guilds.contains(lowercase(guild)) ==> house_access_level(
            h,
            guid,
            account_id,
            false,
            owned_by_account,
            name,
            guild,
            rank,
        ) != AccessHouseLevel::NotInvited,
{
}

/// A player who does not own the house, may not edit houses, and whose
/// guild and rank (any case) are listed together on the sub-owner list is
/// a sub-owner; listed on the guest list, at least a guest.
pub proof fn law_listed_guild_rank_invited(
    h: House,
    guid: u32,
    account_id: u32,
    owned_by_account: bool,
    name: Seq<char>,
    guild: Seq<char>,
    rank: Seq<char>,
)
    requires
        not_owner(h, guid, account_id, owned_by_account),
        guild.len() > 0,
        rank.len() > 0,
        lowercase(guild).len() > 0,
        lowercase(rank).len() > 0,
    ensures
        h.sub_owner_list@.expressions.contains(guild_rank_expression(lowercase(guild), lowercase(rank)))
            ==> house_access_level(h, guid, account_id, false, owned_by_account, name, guild, rank)
            == AccessHouseLevel::Subowner,
        h.guest_list@.expressions.contains(guild_rank_expression(lowercase(guild), lowercase(rank)))
            ==> house_access_level(h, guid, account_id, false, owned_by_account, name, guild, rank)
            != AccessHouseLevel::NotInvited,
{
}

/// A player who does not own the house and may not edit houses, whose name
/// (any case) is on the sub-owner list, is a sub-owner; on the guest list,
/// at least a guest.
pub proof fn law_listed_player_invited(
    h: House,
    guid: u32,
    account_id: u32,
    owned_by_account: bool,
    name: Seq<char>,
    guild: Seq<char>,
    rank: Seq<char>,
)
    requires
        not_owner(h, guid, account_id, owned_by_account),
    ensures
        h.sub_owner_list@.players.contains(lowercase(name)) ==> house_access_level(
            h,
            guid,
            account_id,
            false,
            owned_by_account,
            name,
            guild,
            rank,
        ) == AccessHouseLevel::Subowner,
        h.guest_list@.players.contains(lowercase(name)) ==> house_access_level(
            h,
            guid,
            account_id,
            false,
            owned_by_account,
            name,
            guild,
            rank,
        ) != AccessHouseLevel::NotInvited,
{
}

/// A player who does not own the house, may not edit houses, and is named
/// on neither list, by name, guild or guild and rank, with neither list
/// open to everyone, is not invited.
pub proof fn law_unlisted_player_not_invited(
    h: House,
    guid: u32,
    account_id: u32,
    owned_by_account: bool,
    name: Seq<char>,
    guild: Seq<char>,
    rank: Seq<char>,
)
    requires
        not_owner(h, guid, account_id, owned_by_account),
        !h.sub_owner_list@.everyone && !h.guest_list@.everyone,
        !h.sub_owner_list@.players.contains(lowercase(name)),
        !h.guest_list@.players.contains(lowercase(name)),
        guild.len() > 0 ==> !h.sub_owner_list@.guilds.contains(lowercase(guild))
            && !h.guest_list@.guilds.contains(lowercase(guild)),
        guild.len() > 0 && rank.len() > 0 ==> !h.sub_owner_list@.expressions.contains(
            guild_rank_expression(lowercase(guild), lowercase(rank)),
        ) && !h.guest_list@.expressions.contains(
            guild_rank_expression(lowercase(guild), lowercase(rank)),
        ),
    ensures
        house_access_level(h, guid, account_id, false, owned_by_account, name, guild, rank)
            == AccessHouseLevel::NotInvited,
{
}

/// Whether the keys of `s` increase strictly.
pub open spec fn keys_increasing(s: Seq<(u32, House)>) -> bool {
    forall|i: int, j: int| 0 <= i < j < s.len() ==> s[i].0 < s[j].0
}

/// Whether `s` holds house `id` at index `i`.
pub open spec fn holds_at(s: Seq<(u32, House)>, id: u32, i: int) -> bool {
    0 <= i < s.len() && s[i].0 == id
}

/// Whether `s` holds a house under number `id`.
pub open spec fn holds_key(s: Seq<(u32, House)>, id: u32) -> bool {
    exists|i: int| holds_at(s, id, i)
}

/// The registry of all houses, each under its number, in increasing order
/// of number.
#[derive(Debug, Clone)]
pub struct Houses {
    houses: Vec<(u32, House)>,
}

impl View for Houses {
    type V = Seq<(u32, House)>;

    closed spec fn view(&self) -> Seq<(u32, House)> {
        self.houses@
    }
}

impl Default for Houses {
    fn default() -> (h: Self)
        ensures
            h.wf(),
            h@ == Seq::<(u32, House)>::empty(),
    {
        Houses { houses: Vec::new() }
    }
}

impl Houses {
    /// The registry's invariant: house numbers increase strictly.
    pub open spec fn wf(&self) -> bool {
        keys_increasing(self@)
    }

    fn find_index(&self, id: u32) -> (r: Result<usize, usize>)
        requires
            self.wf(),
        ensures
            match r {
                Ok(i) => holds_at(self@, id, i as int),
                Err(p) => p <= self@.len() && !holds_key(self@, id) && (forall|i: int|
                    0 <= i < p ==> #[trigger] self@[i].0 < id) && (forall|i: int|
                    p <= i < self@.len() ==> #[trigger] self@[i].0 > id),
            },
    {
        let mut i: usize = 0;
        while i < self.houses.len()
            invariant
                i <= self@.len(),
                self.wf(),
                forall|j: int| 0 <= j < i ==> #[trigger] self@[j].0 < id,
            decreases self@.len() - i,
        {
            if self.houses[i].0 == id {
                return Ok(i);
            }
            if self.houses[i].0 > id {
                proof {
                    assert forall|j: int| i <= j < self@.len() implies #[trigger] self@[j].0 > id by {
                        if j > i {
                            assert(self@[i as int].0 < self@[j].0);
                        }
                    }
                    assert forall|j: int| !holds_at(self@, id, j) by {
                        if 0 <= j < self@.len() && j >= i {
                            assert(self@[j].0 > id);
                        }
                    }
                }
                return Err(i);
            }
            i = i + 1;
        }
        proof {
            assert forall|j: int| !holds_at(self@, id, j) by {
                if 0 <= j < self@.len() {
                    assert(self@[j].0 < id);
                }
            }
        }
        Err(i)
    }

    /// The house with number `id`, made empty and added first if there is
    /// none.
    pub fn add_house(&mut self, id: u32) -> (h: &mut House)
        requires
            old(self).wf(),
        ensures
            final(self).wf(),
            holds_key(old(self)@, id) ==> exists|i: int|
                holds_at(old(self)@, id, i) && *h == old(self)@[i].1 && final(self)@ == old(
                    self,
                )@.update(i, (id, *final(h))),
            !holds_key(old(self)@, id) ==> is_fresh_house(*h, id) && exists|p: int|
                0 <= p <= old(self)@.len() && final(self)@ == old(self)@.insert(
                    p,
                    (id, *final(h)),
                ),
    {
        let i = match self.find_index(id) {
            Ok(i) => i,
            Err(p) => {
                let ghost before = self@;
                let fresh = House::with_id(id);
                let ghost fresh_ghost = fresh;
                self.houses.insert(p, (id, fresh));
                proof {
                    assert forall|a: int, b: int| 0 <= a < b < self@.len() implies self@[a].0
                        < self@[b].0 by {
                        if b < p {
                        } else if a < p && b == p {
                        } else if a < p {
                            assert(self@[b] == before[b - 1]);
                        } else if a == p {
                            assert(self@[b] == before[b - 1]);
                        } else {
                            assert(self@[a] == before[a - 1]);
                            assert(self@[b] == before[b - 1]);
                        }
                    }
                }
                assert(self@[p as int] == (id, fresh_ghost));
                let ghost mid = self@;
                let r = &mut self.houses[p].1;
                proof {
                    assert(!holds_key(before, id));
                    assert(mid.update(p as int, (id, *final(r))) =~= before.insert(
                        p as int,
                        (id, *final(r)),
                    ));
                }
                return r;
            },
        };
        &mut self.houses[i].1
    }

    /// The house with number `id`, if there is one.
    pub fn get_house(&self, id: u32) -> (r: Option<&House>)
        requires
            self.wf(),
        ensures
            match r {
                Some(h) => exists|i: int| holds_at(self@, id, i) && *h == self@[i].1,
                None => !holds_key(self@, id),
            },
    {
        match self.find_index(id) {
            Ok(i) => Some(&self.houses[i].1),
            Err(_) => None,
        }
    }

    /// The house with number `id`, if there is one, to change in place.
    pub fn get_house_mut(&mut self, id: u32) -> (r: Option<&mut House>)
        requires
            old(self).wf(),
        ensures
            final(self).wf(),
            match r {
                Some(h) => exists|i: int|
                    holds_at(old(self)@, id, i) && *h == old(self)@[i].1 && final(self)@ == old(
                        self,
                    )@.update(i, (id, *final(h))),
                None => !holds_key(old(self)@, id) && final(self)@ == old(self)@,
            },
    {
        match self.find_index(id) {
            Ok(i) => Some(&mut self.houses[i].1),
            Err(_) => None,
        }
    }

    /// All houses with their numbers, in increasing order of number.
    pub fn get_houses(&self) -> (r: &Vec<(u32, House)>)
        ensures
            r@ == self@,
    {
        &self.houses
    }

    /// The first house, in order of number, owned by character
    /// `player_id`.
    pub fn get_house_by_player_id(&self, player_id: u32) -> (r: Option<&House>)
        ensures
            match r {
                Some(h) => exists|i: int|
                    0 <= i < self@.len() && *h == self@[i].1 && h.owner == player_id && forall|j: int|
                        0 <= j < i ==> (#[trigger] self@[j]).1.owner != player_id,
                None => forall|j: int| 0 <= j < self@.len() ==> (#[trigger] self@[j]).1.owner != player_id,
            },
    {
        let mut i: usize = 0;
        while i < self.houses.len()
            invariant
                i <= self@.len(),
                forall|j: int| 0 <= j < i ==> (#[trigger] self@[j]).1.owner != player_id,
            decreases self@.len() - i,
        {
            if self.houses[i].1.owner == player_id {
                return Some(&self.houses[i].1);
            }
            i = i + 1;
        }
        None
    }
}

/// One house as the houses file describes it.
#[derive(Debug, Clone)]
pub struct HouseEntry {
    pub houseid: u32,
    pub name: String,
    pub entryx: u16,
    pub entryy: u16,
    pub entryz: u8,
    pub rent: u32,
    pub townid: u32,
}

/// House `h` with the description `e` applied: name, entry, rent and town
/// from the file, and no owner.
pub open spec fn apply_house_entry(h: House, e: HouseEntry) -> House {
    House {
        name: e.name,
        entry_position: Position { x: e.entryx, y: e.entryy, z: e.entryz },
        rent: e.rent,
        town_id: e.townid,
        owner: 0,
        ..h
    }
}

/// The registry `s` with the descriptions `es` applied in order.
pub open spec fn apply_house_entries(s: Seq<(u32, House)>, es: Seq<HouseEntry>) -> Seq<(u32, House)>
    decreases es.len(),
{
    if es.len() == 0 {
        s
    } else {
        let e = es.last();
        apply_house_entries(s, es.drop_last()).map_values(
            |p: (u32, House)|
                if p.0 == e.houseid {
                    (p.0, apply_house_entry(p.1, e))
                } else {
                    p
                },
        )
    }
}

/// The index of the first description in `es` from `i` on whose house
/// `s` does not hold, or the length of `es`.
pub open spec fn first_unknown_entry(s: Seq<(u32, House)>, es: Seq<HouseEntry>, i: int) -> int
    decreases es.len() - i,
{
    if i < 0 || i >= es.len() {
        es.len() as int
    } else if !holds_key(s, es[i].houseid) {
        i
    } else {
        first_unknown_entry(s, es, i + 1)
    }
}

proof fn lemma_apply_entries_keys(s: Seq<(u32, House)>, es: Seq<HouseEntry>)
    ensures
        apply_house_entries(s, es).len() == s.len(),
        forall|i: int| 0 <= i < s.len() ==> (#[trigger] apply_house_entries(s, es)[i]).0 == s[i].0,
    decreases es.len(),
{
    if es.len() > 0 {
        lemma_apply_entries_keys(s, es.drop_last());
    }
}

impl Houses {
    /// Applies the descriptions of the houses file, in order, to houses
    /// the map already holds; stops with the number of the first described
    /// house the map does not hold, leaving the earlier descriptions
    /// applied.
    pub fn load_entries(&mut self, entries: &Vec<HouseEntry>) -> (r: Result<(), u32>)
        requires
            old(self).wf(),
        ensures
            final(self).wf(),
            ({
                let k = first_unknown_entry(old(self)@, entries@, 0);
                &&& final(self)@ == apply_house_entries(old(self)@, entries@.take(k))
                &&& r == if k < entries@.len() {
                    Err::<(), u32>(entries@[k].houseid)
                } else {
                    Ok(())
                }
            }),
    {
        let ghost start = self@;
        let mut n: usize = 0;
        while n < entries.len()
            invariant
                n <= entries@.len(),
                self.wf(),
                start == old(self)@,
                first_unknown_entry(start, entries@, 0) == first_unknown_entry(start, entries@, n as int),
                self@ == apply_house_entries(start, entries@.take(n as int)),
            decreases entries@.len() - n,
        {
            let e = &entries[n];
            proof {
                lemma_apply_entries_keys(start, entries@.take(n as int));
            }
            let ghost before = self@;
            match self.get_house_mut(e.houseid) {
                Some(h) => {
                    h.name = e.name.clone();
                    h.entry_position = Position { x: e.entryx, y: e.entryy, z: e.entryz };
                    h.rent = e.rent;
                    h.town_id = e.townid;
                    h.owner = 0;
                },
                None => {
                    proof {
                        assert(!holds_key(start, e.houseid)) by {
                            if holds_key(start, e.houseid) {
                                let i = choose|i: int| holds_at(start, e.houseid, i);
                                assert(holds_at(before, e.houseid, i));
                            }
                        }
                        assert(first_unknown_entry(start, entries@, n as int) == n);
                    }
                    return Err(e.houseid);
                },
            }
            proof {
                let t = entries@.take(n as int + 1);
                assert(t.drop_last() =~= entries@.take(n as int));
                assert(t.last() == entries@[n as int]);
                assert(holds_key(start, e.houseid)) by {
                    let i = choose|i: int| holds_at(before, e.houseid, i);
                    assert(holds_at(start, e.houseid, i));
                }
                assert forall|i: int| 0 <= i < self@.len() implies self@[i]
                    == apply_house_entries(start, t)[i] by {
                    if before[i].0 == e.houseid {
                    }
                }
                assert(self@ =~= apply_house_entries(start, t));
            }
            n = n + 1;
        }
        proof {
            assert(entries@.take(n as int) =~= entries@);
        }
        Ok(())
    }
}

/// Once an access list admits everyone, further lines never take that back.
pub proof fn law_everyone_stays(v: AccessView, lines: Seq<Seq<char>>)
    requires
        v.everyone,
    ensures
        apply_access_lines(v, lines).everyone,
    decreases lines.len(),
{
    if lines.len() > 0 {
        law_everyone_stays(v, lines.drop_last());
    }
}

/// Lines only ever add invitations: a player, guild or guild rank admitted
/// before further lines are applied is still admitted after.
pub proof fn law_lines_only_add(v: AccessView, lines: Seq<Seq<char>>, name: Seq<char>, guild: Seq<char>, rank: Seq<char>)
    requires
        admits(v, name, guild, rank),
    ensures
        admits(apply_access_lines(v, lines), name, guild, rank),
    decreases lines.len(),
{
    if lines.len() > 0 {
        law_lines_only_add(v, lines.drop_last(), name, guild, rank);
        let w = apply_access_lines(v, lines.drop_last());
        let line = lowercase(trim(lines.last()));
        let at = index_of_from(line, '@', 0);
        if at > 0 {
            let e = guild_rank_expression(trim_end(line.take(at)), trim_start(line.skip(at + 1)));
            if guild.len() > 0 && rank.len() > 0 && w.expressions.contains(guild_rank_expression(guild, rank)) {
                let i = choose|i: int| 0 <= i < w.expressions.len() && w.expressions[i] == guild_rank_expression(guild, rank);
                assert(w.expressions.push(e)[i] == guild_rank_expression(guild, rank));
            }
        }
    }
}

/// A player invited by name is admitted under that name, whatever guild
/// he is in.
pub proof fn law_added_player_admitted(v: AccessView, name: Seq<char>, guild: Seq<char>, rank: Seq<char>)
    ensures
        admits(AccessView { players: v.players.insert(name), ..v }, name, guild, rank),
{
}

/// A whole invited guild admits each of its members, whatever their rank.
pub proof fn law_added_guild_admits_members(v: AccessView, guild: Seq<char>, name: Seq<char>, rank: Seq<char>)
    requires
        guild.len() > 0,
    ensures
        admits(AccessView { guilds: v.guilds.insert(guild), ..v }, name, guild, rank),
{
}

/// An owner may edit every list; a sub-owner only the guest list; guests
/// and strangers none.
pub proof fn law_edit_rights(list_id: u32)
    ensures
        can_edit_list(list_id, AccessHouseLevel::Owner),
        can_edit_list(list_id, AccessHouseLevel::Subowner) == (list_id == GUEST_LIST),
        !can_edit_list(list_id, AccessHouseLevel::Guest),
        !can_edit_list(list_id, AccessHouseLevel::NotInvited),
{
}

/// The owning character is the owner of the house, whatever the lists say.
pub proof fn law_owner_is_owner(h: House, account_id: u32, can_edit_houses: bool, owned_by_account: bool, name: Seq<char>, guild: Seq<char>, rank: Seq<char>)
    requires
        h.owner != 0,
    ensures
        house_access_level(h, h.owner, account_id, can_edit_houses, owned_by_account, name, guild, rank)
            == AccessHouseLevel::Owner,
{
}

/// A house added to the registry is found under its number afterwards.
pub proof fn law_added_house_found(s: Seq<(u32, House)>, id: u32, p: int, h: House)
    requires
        0 <= p <= s.len(),
    ensures
        holds_key(s.insert(p, (id, h)), id),
        forall|i: int| holds_at(s, id, i) ==> holds_key(s.update(i, (id, h)), id),
{
    assert(holds_at(s.insert(p, (id, h)), id, p));
    assert forall|i: int| holds_at(s, id, i) implies holds_key(s.update(i, (id, h)), id) by {
        assert(holds_at(s.update(i, (id, h)), id, i));
    }
}

/// What becomes of an item on a house tile when the house changes owner:
/// a pickupable item goes to the depot; a container stays, emptied, and
/// its items go to the depot; anything else stays.
#[derive(Debug, Clone, Copy, PartialEq, Eq, Structural)]
pub enum HouseItemKind {
    Pickupable,
    Container,
    Fixed,
}

/// The items that stay on a house tile and those that go to the depot, in
/// order, for the tile's items `ts` of kinds `kinds`.
pub open spec fn house_items_sorted(ts: Seq<ItemTree>, kinds: Seq<HouseItemKind>) -> (
    Seq<ItemTree>,
    Seq<ItemTree>,
)
    decreases ts.len(),
{
    if ts.len() == 0 {
        (Seq::empty(), Seq::empty())
    } else {
        let n = ts.len() - 1;
        let (kept, moved) = house_items_sorted(ts.subrange(0, n), kinds);
        let t = ts[n];
        match kinds[n] {
            HouseItemKind::Pickupable => (kept, moved.push(t)),
            HouseItemKind::Container => (
                kept.push(ItemTree { children: Seq::empty(), ..t }),
                moved + t.children,
            ),
            HouseItemKind::Fixed => (kept.push(t), moved),
        }
    }
}

/// Sorts the items of a house tile into those that stay and those that go
/// to the depot (see `house_items_sorted`); `kinds` gives each item's kind.
pub fn sort_house_tile_items(items: Vec<MapItem>, kinds: &Vec<HouseItemKind>) -> (r: (
    Vec<MapItem>,
    Vec<MapItem>,
))
    requires
        kinds@.len() == items@.len(),
    ensures
        (trees_of(r.0@), trees_of(r.1@)) == house_items_sorted(trees_of(items@), kinds@),
{
    let ghost orig = items@;
    let ghost ts = trees_of(orig);
    proof {
        lemma_trees_pointwise(orig);
    }
    let mut items = items;
    let mut kept: Vec<MapItem> = Vec::new();
    let mut moved: Vec<MapItem> = Vec::new();
    let mut i: usize = 0;
    proof {
        lemma_trees_pointwise(kept@);
        lemma_trees_pointwise(moved@);
        assert(ts.subrange(0, 0) =~= Seq::<ItemTree>::empty());
    }
    while i < kinds.len()
        invariant
            kinds@.len() == orig.len(),
            ts == trees_of(orig),
            ts == Seq::new(orig.len(), |k: int| tree_of(orig[k])),
            i <= orig.len(),
            items@ == orig.skip(i as int),
            (trees_of(kept@), trees_of(moved@)) == house_items_sorted(ts.subrange(0, i as int), kinds@),
        decreases kinds.len() - i,
    {
        let item = items.remove(0);
        let ghost pre = ts.subrange(0, i as int);
        let ghost s1 = ts.subrange(0, i + 1);
        proof {
            assert(s1.subrange(0, s1.len() - 1) =~= pre);
            assert(item == orig[i as int]);
            assert(s1[s1.len() - 1] == tree_of(item));
            assert(items@ =~= orig.skip(i + 1));
        }
        let kind = kinds[i];
        match kind {
            HouseItemKind::Pickupable => {
                proof {
                    crate::map::serialize::lemma_trees_push(moved@, item);
                }
                moved.push(item);
            },
            HouseItemKind::Container => {
                let mut c = item;
                let mut children: Vec<MapItem> = Vec::new();
                std::mem::swap(&mut c.children, &mut children);
                let ghost base = trees_of(moved@);
                proof {
                    lemma_trees_pointwise(children@);
                    lemma_trees_pointwise(c.children@);
                    crate::map::serialize::lemma_trees_push(kept@, c);
                    assert(tree_of(c) == ItemTree { children: Seq::empty(), ..tree_of(item) });
                }
                kept.push(c);
                let ghost cs = children@;
                let n = children.len();
                let mut j: usize = 0;
                while j < n
                    invariant
                        n == cs.len(),
                        j <= cs.len(),
                        children@ == cs.skip(j as int),
                        trees_of(moved@) == base + trees_of(cs).subrange(0, j as int),
                        trees_of(cs) == Seq::new(cs.len(), |k: int| tree_of(cs[k])),
                    decreases n - j,
                {
                    let ch = children.remove(0);
                    proof {
                        assert(ch == cs[j as int]);
                        assert(children@ =~= cs.skip(j + 1));
                        crate::map::serialize::lemma_trees_push(moved@, ch);
                        assert(base + trees_of(cs).subrange(0, j + 1) =~= (base + trees_of(
                            cs,
                        ).subrange(0, j as int)).push(tree_of(ch)));
                    }
                    moved.push(ch);
                    j = j + 1;
                }
                proof {
                    assert(trees_of(cs).subrange(0, cs.len() as int) =~= trees_of(cs));
                }
            },
            HouseItemKind::Fixed => {
                proof {
                    crate::map::serialize::lemma_trees_push(kept@, item);
                }
                kept.push(item);
            },
        }
        i = i + 1;
    }
    proof {
        assert(ts.subrange(0, orig.len() as int) =~= ts);
    }
    (kept, moved)
}

/// Puts the items `moved` into a depot, each at the front: the depot then
/// holds them in reverse order before what it held.
pub fn deliver_to_depot(depot: &mut Vec<MapItem>, moved: Vec<MapItem>)
    ensures
        trees_of(final(depot)@) == trees_of(moved@).reverse() + trees_of(old(depot)@),
{
    let ghost ms = moved@;
    let ghost d0 = depot@;
    proof {
        lemma_trees_pointwise(ms);
        lemma_trees_pointwise(d0);
        lemma_trees_pointwise(depot@);
        assert(trees_of(ms).subrange(0, 0).reverse() + trees_of(d0) =~= trees_of(d0));
    }
    let mut moved = moved;
    let n = moved.len();
    let mut i: usize = 0;
    while i < n
        invariant
            n == ms.len(),
            i <= ms.len(),
            moved@ == ms.skip(i as int),
            trees_of(ms) == Seq::new(ms.len(), |k: int| tree_of(ms[k])),
            trees_of(d0) == Seq::new(d0.len(), |k: int| tree_of(d0[k])),
            trees_of(depot@) == trees_of(ms).subrange(0, i as int).reverse() + trees_of(d0),
        decreases n - i,
    {
        let item = moved.remove(0);
        let ghost before = depot@;
        proof {
            assert(item == ms[i as int]);
            assert(moved@ =~= ms.skip(i + 1));
            lemma_trees_pointwise(before);
        }
        depot.insert(0, item);
        proof {
            lemma_trees_pointwise(depot@);
            assert(depot@ =~= seq![item] + before);
            assert(trees_of(depot@) =~= seq![tree_of(item)] + trees_of(before));
            assert(trees_of(ms).subrange(0, i + 1).reverse() =~= seq![tree_of(item)] + trees_of(
                ms,
            ).subrange(0, i as int).reverse());
            assert(trees_of(depot@) =~= trees_of(ms).subrange(0, i + 1).reverse() + trees_of(d0));
        }
        i = i + 1;
    }
    proof {
        assert(trees_of(ms).subrange(0, ms.len() as int) =~= trees_of(ms));
    }
}

/// The items that go to the depot from the house tiles `ts` (the items of
/// each tile) of kinds `ks`, tile after tile (see `house_items_sorted`).
pub open spec fn moved_from_tiles(ts: Seq<Vec<MapItem>>, ks: Seq<Vec<HouseItemKind>>) -> Seq<ItemTree>
    decreases ts.len(),
{
    if ts.len() == 0 {
        Seq::empty()
    } else {
        let n = ts.len() - 1;
        moved_from_tiles(ts.subrange(0, n), ks) + house_items_sorted(trees_of(ts[n]@), ks[n]@).1
    }
}

proof fn lemma_trees_concat(a: Seq<MapItem>, b: Seq<MapItem>)
    ensures
        trees_of(a + b) == trees_of(a) + trees_of(b),
{
    lemma_trees_pointwise(a);
    lemma_trees_pointwise(b);
    lemma_trees_pointwise(a + b);
    assert(trees_of(a + b) =~= trees_of(a) + trees_of(b));
}

/// Moves the items of the house tiles `tiles` that go to the depot (see
/// `house_items_sorted`; `kinds` gives each item's kind) into `depot`:
/// each tile keeps the rest in order, and every moved item, tile after
/// tile, is put at the front of the depot.
pub fn move_house_items(
    tiles: &mut Vec<Vec<MapItem>>,
    kinds: &Vec<Vec<HouseItemKind>>,
    depot: &mut Vec<MapItem>,
)
    requires
        kinds@.len() == old(tiles)@.len(),
        forall|t: int| 0 <= t < kinds@.len() ==> (#[trigger] kinds@[t])@.len() == old(tiles)@[t]@.len(),
    ensures
        final(tiles)@.len() == old(tiles)@.len(),
        forall|t: int| 0 <= t < final(tiles)@.len() ==> trees_of((#[trigger] final(tiles)@[t])@)
            == house_items_sorted(trees_of(old(tiles)@[t]@), kinds@[t]@).0,
        trees_of(final(depot)@) == moved_from_tiles(old(tiles)@, kinds@).reverse() + trees_of(
            old(depot)@,
        ),
{
    let ghost orig = tiles@;
    let mut moved: Vec<MapItem> = Vec::new();
    proof {
        lemma_trees_pointwise(moved@);
        assert(orig.subrange(0, 0) =~= Seq::<Vec<MapItem>>::empty());
    }
    let mut t: usize = 0;
    while t < tiles.len()
        invariant
            tiles@.len() == orig.len(),
            kinds@.len() == orig.len(),
            forall|j: int| 0 <= j < kinds@.len() ==> (#[trigger] kinds@[j])@.len() == orig[j]@.len(),
            t <= orig.len(),
            forall|j: int| 0 <= j < t ==> trees_of((#[trigger] tiles@[j])@) == house_items_sorted(
                trees_of(orig[j]@),
                kinds@[j]@,
            ).0,
            forall|j: int| t <= j < orig.len() ==> #[trigger] tiles@[j] == orig[j],
            trees_of(moved@) == moved_from_tiles(orig.subrange(0, t as int), kinds@),
        decreases orig.len() - t,
    {
        let mut items: Vec<MapItem> = Vec::new();
        std::mem::swap(&mut tiles[t], &mut items);
        assert(items == orig[t as int]);
        let (kept, mut out) = sort_house_tile_items(items, &kinds[t]);
        let mut kept = kept;
        std::mem::swap(&mut tiles[t], &mut kept);
        let ghost before = moved@;
        proof {
            lemma_trees_concat(before, out@);
            let s1 = orig.subrange(0, t + 1);
            assert(s1.subrange(0, s1.len() - 1) =~= orig.subrange(0, t as int));
            assert(s1[s1.len() - 1] == orig[t as int]);
        }
        moved.append(&mut out);
        t = t + 1;
    }
    proof {
        assert(orig.subrange(0, orig.len() as int) =~= orig);
    }
    deliver_to_depot(depot, moved);
}

/// The creatures of one tile that must leave: those that may not stay, in
/// order.
pub open spec fn tile_evictions(ids: Seq<u32>, may_stay: Seq<bool>) -> Seq<u32>
    decreases ids.len(),
{
    if ids.len() == 0 {
        Seq::empty()
    } else {
        let n = ids.len() - 1;
        let rest = tile_evictions(ids.subrange(0, n), may_stay);
        if may_stay[n] {
            rest
        } else {
            rest.push(ids[n])
        }
    }
}

/// The creatures to move to the entry of a house whose owner changes: tile
/// by tile, those on it that may not stay (a player without the right to
/// edit houses), in order.
pub open spec fn house_evictions_of(tiles: Seq<Vec<u32>>, may_stay: Seq<Vec<bool>>) -> Seq<u32>
    decreases tiles.len(),
{
    if tiles.len() == 0 {
        Seq::empty()
    } else {
        let n = tiles.len() - 1;
        house_evictions_of(tiles.subrange(0, n), may_stay) + tile_evictions(tiles[n]@, may_stay[n]@)
    }
}

/// The creatures to move to the entry of a house whose owner changes (see
/// `house_evictions_of`); `tiles` holds the creatures on each house tile,
/// `may_stay` whether each of them may stay.
pub fn house_evictions(tiles: &Vec<Vec<u32>>, may_stay: &Vec<Vec<bool>>) -> (r: Vec<u32>)
    requires
        may_stay@.len() == tiles@.len(),
        forall|i: int| 0 <= i < tiles@.len() ==> (#[trigger] may_stay@[i])@.len() == tiles@[i]@.len(),
    ensures
        r@ == house_evictions_of(tiles@, may_stay@),
{
    let mut r: Vec<u32> = Vec::new();
    let mut t: usize = 0;
    while t < tiles.len()
        invariant
            t <= tiles@.len(),
            may_stay@.len() == tiles@.len(),
            forall|i: int| 0 <= i < tiles@.len() ==> (#[trigger] may_stay@[i])@.len() == tiles@[i]@.len(),
            r@ == house_evictions_of(tiles@.subrange(0, t as int), may_stay@),
        decreases tiles.len() - t,
    {
        let ids = &tiles[t];
        let stay = &may_stay[t];
        let ghost base = r@;
        let mut k: usize = 0;
        while k < ids.len()
            invariant
                k <= ids@.len(),
                stay@.len() == ids@.len(),
                r@ == base + tile_evictions(ids@.subrange(0, k as int), stay@),
            decreases ids.len() - k,
        {
            let ghost s1 = ids@.subrange(0, k + 1);
            proof {
                assert(s1.subrange(0, s1.len() - 1) =~= ids@.subrange(0, k as int));
            }
            if !stay[k] {
                r.push(ids[k]);
            }
            k = k + 1;
        }
        proof {
            let s1 = tiles@.subrange(0, t + 1);
            assert(s1.subrange(0, s1.len() - 1) =~= tiles@.subrange(0, t as int));
            assert(ids@.subrange(0, ids@.len() as int) =~= ids@);
        }
        t = t + 1;
    }
    proof {
        assert(tiles@.subrange(0, tiles@.len() as int) =~= tiles@);
    }
    r
}

/// The town and owner whose depot receives the movable items of house
/// `house_id` when its owner changes: none for an unknown house, a house
/// outside any town, or a house without owner.
pub fn transfer_to_depot(houses: &Houses, house_id: u32) -> (r: Option<(u32, u32)>)
    requires
        houses.wf(),
    ensures
        match r {
            Some((town, owner)) => exists|i: int|
                holds_at(houses@, house_id, i) && town == houses@[i].1.town_id && owner
                    == houses@[i].1.owner && town != 0 && owner != 0,
            None => forall|i: int|
                holds_at(houses@, house_id, i) ==> houses@[i].1.town_id == 0 || houses@[i].1.owner == 0,
        },
{
    match houses.get_house(house_id) {
        Some(h) => {
            proof {
                assert forall|i: int| holds_at(houses@, house_id, i) implies houses@[i].1 == *h by {
                    let j = choose|j: int| holds_at(houses@, house_id, j) && *h == houses@[j].1;
                    if i != j {
                        if i < j {
                            assert(houses@[i].0 < houses@[j].0);
                        } else {
                            assert(houses@[j].0 < houses@[i].0);
                        }
                    }
                }
            }
            if h.town_id == 0 || h.owner == 0 {
                None
            } else {
                Some((h.town_id, h.owner))
            }
        },
        None => None,
    }
}

/// In a registry ordered by number, a house number occurs at one place only.
pub proof fn lemma_key_unique(s: Seq<(u32, House)>, id: u32, i: int, j: int)
    requires
        keys_increasing(s),
        holds_at(s, id, i),
        holds_at(s, id, j),
    ensures
        i == j,
{
    if i < j {
        assert(s[i].0 < s[j].0);
    } else if j < i {
        assert(s[j].0 < s[i].0);
    }
}

/// Moves the belongings on the tiles of house `house_id` to its owner's
/// depot when the owner changes: nothing happens (and the answer is false)
/// for an unknown house, a house outside any town or without owner, or an
/// owner who is not online (`owner_online`); otherwise each tile keeps what
/// stays and everything else goes to the front of `depot`, the owner's
/// depot in the house's town (see `move_house_items`). `tiles` holds the
/// items of the house's tiles and `kinds` their kinds.
pub fn transfer_house_items(
    houses: &Houses,
    house_id: u32,
    owner_online: bool,
    tiles: &mut Vec<Vec<MapItem>>,
    kinds: &Vec<Vec<HouseItemKind>>,
    depot: &mut Vec<MapItem>,
) -> (r: bool)
    requires
        houses.wf(),
        kinds@.len() == old(tiles)@.len(),
        forall|t: int| 0 <= t < kinds@.len() ==> (#[trigger] kinds@[t])@.len() == old(tiles)@[t]@.len(),
    ensures
        r == (owner_online && exists|i: int|
            holds_at(houses@, house_id, i) && houses@[i].1.town_id != 0 && houses@[i].1.owner != 0),
        !r ==> final(tiles)@ == old(tiles)@ && final(depot)@ == old(depot)@,
        r ==> final(tiles)@.len() == old(tiles)@.len() && (forall|t: int|
            0 <= t < final(tiles)@.len() ==> trees_of((#[trigger] final(tiles)@[t])@)
                == house_items_sorted(trees_of(old(tiles)@[t]@), kinds@[t]@).0) && trees_of(
            final(depot)@,
        ) == moved_from_tiles(old(tiles)@, kinds@).reverse() + trees_of(old(depot)@),
{
    match transfer_to_depot(houses, house_id) {
        None => false,
        Some(_) => {
            if !owner_online {
                return false;
            }
            move_house_items(tiles, kinds, depot);
            true
        },
    }
}

/// Gives house `house_id` the owner `guid` (0 for none). Nothing changes
/// for an unknown house or when the loaded house already has that owner.
/// Otherwise the house is marked loaded; a previous owner is removed with
/// the access lists; rent warnings are reset; `guid` (unless 0) becomes the
/// owner. Returns the previous owner whose belongings must leave the house,
/// if there was one.
pub fn set_owner(houses: &mut Houses, house_id: u32, guid: u32) -> (evicted: Option<u32>)
    requires
        old(houses).wf(),
    ensures
        final(houses).wf(),
        !holds_key(old(houses)@, house_id) ==> final(houses)@ == old(houses)@ && evicted is None,
        forall|i: int| #[trigger] holds_at(old(houses)@, house_id, i) ==> ({
            let h = old(houses)@[i].1;
            if h.is_loaded && h.owner == guid {
                final(houses)@ == old(houses)@ && evicted is None
            } else {
                let h2 = final(houses)@[i].1;
                &&& final(houses)@ == old(houses)@.update(i, (house_id, h2))
                &&& h2.is_loaded
                &&& h2.rent_warnings == 0
                &&& h2.owner == if guid != 0 { guid } else if h.owner != 0 { 0 } else { h.owner }
                &&& evicted == if h.owner != 0 { Some(h.owner) } else { None }
                &&& h.owner != 0 ==> h2.owner_account_id == 0 && h2.owner_name@.len() == 0
                    && h2.guest_list@ == parsed_access_list(Seq::empty())
                    && h2.sub_owner_list@ == parsed_access_list(Seq::empty())
                &&& h.owner == 0 ==> h2.owner_account_id == h.owner_account_id && h2.owner_name
                    == h.owner_name && h2.guest_list == h.guest_list && h2.sub_owner_list
                    == h.sub_owner_list
                &&& h2.id == h.id && h2.name == h.name && h2.entry_position == h.entry_position
                    && h2.rent == h.rent && h2.town_id == h.town_id && h2.paid_until == h.paid_until
                    && h2.tiles == h.tiles && h2.doors == h.doors && h2.beds == h.beds
                    && h2.transfer_item == h.transfer_item
            }
        }),
{
    let ghost before = houses@;
    match houses.get_house_mut(house_id) {
        Some(h) => {
            proof {
                let j = choose|j: int| holds_at(before, house_id, j);
                assert forall|i: int| holds_at(before, house_id, i) implies i == j by {
                    lemma_key_unique(before, house_id, i, j);
                }
                assert(before.update(j, (house_id, before[j].1)) =~= before);
            }
            if h.is_loaded && h.owner == guid {
                return None;
            }
            h.is_loaded = true;
            let previous = h.owner;
            let evicted = if previous != 0 {
                h.owner = 0;
                h.owner_account_id = 0;
                h.owner_name = String::new();
                let empty = "";
                proof {
                    reveal_strlit("");
                    assert(empty@ =~= Seq::<char>::empty());
                }
                h.guest_list.parse_list(empty);
                h.sub_owner_list.parse_list(empty);
                Some(previous)
            } else {
                None
            };
            h.rent_warnings = 0;
            if guid != 0 {
                h.owner = guid;
            }
            evicted
        },
        None => None,
    }
}


/// Changes the owner of house `house_id` to `guid` (0 for none) with all
/// that goes with it. Nothing changes for an unknown house or a loaded
/// house that already has that owner. Otherwise, where the house had an
/// owner, that owner's belongings leave the house tiles for the owner's
/// depot (see `transfer_house_items`: `tiles`, `kinds`, `depot`,
/// `owner_online`) and the creatures on the house tiles that may not stay
/// (see `house_evictions`: `creatures`, `may_stay`) are returned to be
/// moved to the house entry; then the house record changes as `set_owner`
/// says. Returns the previous owner, if there was one, and the creatures
/// to move.
pub fn change_house_owner(
    houses: &mut Houses,
    house_id: u32,
    guid: u32,
    owner_online: bool,
    tiles: &mut Vec<Vec<MapItem>>,
    kinds: &Vec<Vec<HouseItemKind>>,
    depot: &mut Vec<MapItem>,
    creatures: &Vec<Vec<u32>>,
    may_stay: &Vec<Vec<bool>>,
) -> (r: (Option<u32>, Vec<u32>))
    requires
        old(houses).wf(),
        kinds@.len() == old(tiles)@.len(),
        forall|t: int| 0 <= t < kinds@.len() ==> (#[trigger] kinds@[t])@.len() == old(tiles)@[t]@.len(),
        may_stay@.len() == creatures@.len(),
        forall|i: int| 0 <= i < creatures@.len() ==> (#[trigger] may_stay@[i])@.len() == creatures@[i]@.len(),
    ensures
        final(houses).wf(),
        !holds_key(old(houses)@, house_id) ==> final(houses)@ == old(houses)@ && final(tiles)@ == old(
            tiles,
        )@ && final(depot)@ == old(depot)@ && r.0 is None && r.1@.len() == 0,
        forall|i: int| #[trigger] holds_at(old(houses)@, house_id, i) ==> ({
            let h = old(houses)@[i].1;
            if h.is_loaded && h.owner == guid {
                final(houses)@ == old(houses)@ && final(tiles)@ == old(tiles)@ && final(depot)@ == old(
                    depot,
                )@ && r.0 is None && r.1@.len() == 0
            } else {
                let h2 = final(houses)@[i].1;
                &&& final(houses)@ == old(houses)@.update(i, (house_id, h2))
                &&& h2.is_loaded && h2.rent_warnings == 0
                &&& h2.owner == if guid != 0 { guid } else if h.owner != 0 { 0 } else { h.owner }
                &&& r.0 == if h.owner != 0 { Some(h.owner) } else { None }
                &&& h.owner == 0 ==> final(tiles)@ == old(tiles)@ && final(depot)@ == old(depot)@
                    && r.1@.len() == 0
                &&& h.owner != 0 ==> r.1@ == house_evictions_of(creatures@, may_stay@)
                &&& h.owner != 0 && !(owner_online && h.town_id != 0) ==> final(tiles)@ == old(
                    tiles,
                )@ && final(depot)@ == old(depot)@
                &&& h.owner != 0 && owner_online && h.town_id != 0 ==> final(tiles)@.len() == old(
                    tiles,
                )@.len() && (forall|t: int|
                    0 <= t < final(tiles)@.len() ==> trees_of((#[trigger] final(tiles)@[t])@)
                        == house_items_sorted(trees_of(old(tiles)@[t]@), kinds@[t]@).0) && trees_of(
                    final(depot)@,
                ) == moved_from_tiles(old(tiles)@, kinds@).reverse() + trees_of(old(depot)@)
            }
        }),
{
    let (is_loaded, owner) = match houses.get_house(house_id) {
        None => {
            return (None, Vec::new());
        },
        Some(h) => (h.is_loaded, h.owner),
    };
    proof {
        let j = choose|j: int| holds_at(old(houses)@, house_id, j) && old(houses)@[j].1.is_loaded
            == is_loaded && old(houses)@[j].1.owner == owner;
        assert forall|i: int| holds_at(old(houses)@, house_id, i) implies i == j by {
            lemma_key_unique(old(houses)@, house_id, i, j);
        }
    }
    if is_loaded && owner == guid {
        return (None, Vec::new());
    }
    let mut moved_out: Vec<u32> = Vec::new();
    if owner != 0 {
        transfer_house_items(houses, house_id, owner_online, tiles, kinds, depot);
        moved_out = house_evictions(creatures, may_stay);
    }
    let evicted = set_owner(houses, house_id, guid);
    (evicted, moved_out)
}

} // verus!
