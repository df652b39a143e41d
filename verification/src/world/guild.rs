//! Guilds: their ranks and the members who are online.
use vstd::prelude::*;
use std::sync::Arc;

verus! {

/// A rank within a guild.
#[derive(Debug, Clone)]
pub struct GuildRank {
    pub id: u32,
    pub name: String,
    pub level: u8,
}

/// A shared handle to a guild rank.
pub type GuildRankPtr = Arc<GuildRank>;

/// The guilds a guild is at war with.
pub type GuildWarVector = Vec<u32>;

/// Another handle to the same rank (`Arc::clone`).
#[verifier::external_body]
fn share_rank(rank: &GuildRankPtr) -> (r: GuildRankPtr)
    ensures
        *r == **rank,
{
    Arc::clone(rank)
}

/// The abstract content of a guild.
pub ghost struct GuildView {
    pub id: u32,
    pub name: Seq<char>,
    pub motd: Seq<char>,
    pub members_online: Seq<u32>,
    pub ranks: Seq<GuildRank>,
    pub member_count: u32,
}

/// A guild: its id, name and message of the day, the members online, its
/// ranks and its number of members.
pub struct Guild {
    pub id: u32,
    pub name: String,
    pub motd: String,
    members_online: Vec<u32>,
    ranks: Vec<GuildRankPtr>,
    member_count: u32,
}

/// The test for an id other than `x`.
pub open spec fn other_than(x: u32) -> spec_fn(u32) -> bool {
    |id: u32| id != x
}

/// The first rank in `ranks` that meets `p`, if any.
pub open spec fn first_rank(ranks: Seq<GuildRank>, p: spec_fn(GuildRank) -> bool) -> Option<GuildRank>
    decreases ranks.len(),
{
    if ranks.len() == 0 {
        None
    } else if p(ranks[0]) {
        Some(ranks[0])
    } else {
        first_rank(ranks.skip(1), p)
    }
}

proof fn lemma_first_rank_step(ranks: Seq<GuildRank>, p: spec_fn(GuildRank) -> bool, i: int)
    requires
        0 <= i < ranks.len(),
        forall|j: int| 0 <= j < i ==> !p(#[trigger] ranks[j]),
    ensures
        first_rank(ranks, p) == first_rank(ranks.skip(i), p),
    decreases i,
{
    if i > 0 {
        assert(!p(ranks[0]));
        lemma_first_rank_step(ranks.skip(1), p, i - 1);
        assert(ranks.skip(1).skip(i - 1) =~= ranks.skip(i));
    } else {
        assert(ranks.skip(0) =~= ranks);
    }
}

proof fn lemma_first_rank_none(ranks: Seq<GuildRank>, p: spec_fn(GuildRank) -> bool)
    requires
        forall|j: int| 0 <= j < ranks.len() ==> !p(#[trigger] ranks[j]),
    ensures
        first_rank(ranks, p) is None,
    decreases ranks.len(),
{
    if ranks.len() > 0 {
        assert(!p(ranks[0]));
        lemma_first_rank_none(ranks.skip(1), p);
    }
}

impl View for Guild {
    type V = GuildView;

    closed spec fn view(&self) -> GuildView {
        GuildView {
            id: self.id,
            name: self.name@,
            motd: self.motd@,
            members_online: self.members_online@,
            ranks: self.ranks@.map_values(|r: GuildRankPtr| *r),
            member_count: self.member_count,
        }
    }
}

impl Guild {
    /// A guild with no ranks, no members online and no message of the day.
    pub fn new(id: u32, name: String) -> (g: Self)
        ensures
            g@ == (GuildView {
                id,
                name: name@,
                motd: Seq::empty(),
                members_online: Seq::empty(),
                ranks: Seq::empty(),
                member_count: 0,
            }),
    {
        let g = Guild {
            id,
            name,
            motd: String::new(),
            members_online: Vec::new(),
            ranks: Vec::new(),
            member_count: 0,
        };
        assert(g@.ranks =~= Seq::<GuildRank>::empty());
        g
    }

    /// Notes that a member came online.
    pub fn add_member(&mut self, player_id: u32)
        ensures
            final(self)@ == (GuildView {
                members_online: old(self)@.members_online.push(player_id),
                ..old(self)@
            }),
    {
        self.members_online.push(player_id);
    }

    /// Notes that a member went offline: every entry of `player_id` goes.
    pub fn remove_member(&mut self, player_id: u32)
        ensures
            final(self)@ == (GuildView {
                members_online: old(self)@.members_online.filter(other_than(player_id)),
                ..old(self)@
            }),
    {
        let ghost old_members = self.members_online@;
        let mut kept: Vec<u32> = Vec::new();
        let mut i: usize = 0;
        while i < self.members_online.len()
            invariant
                i <= old_members.len(),
                self.members_online@ == old_members,
                kept@ == old_members.take(i as int).filter(other_than(player_id)),
            decreases old_members.len() - i,
        {
            let id = self.members_online[i];
            proof {
                let t = old_members.take(i as int + 1);
                assert(t =~= old_members.take(i as int).push(id));
                old_members.take(i as int).lemma_filter_push(id, other_than(player_id));
                assert(t.filter(other_than(player_id)) == if id != player_id {
                    old_members.take(i as int).filter(other_than(player_id)).push(id)
                } else {
                    old_members.take(i as int).filter(other_than(player_id))
                });
            }
            if id != player_id {
                kept.push(id);
            }
            i = i + 1;
        }
        assert(old_members.take(old_members.len() as int) =~= old_members);
        self.members_online = kept;
    }
}

impl Guild {
    /// The guild id.
    pub fn get_id(&self) -> (r: u32)
        ensures
            r == self@.id,
    {
        self.id
    }

    /// The guild name.
    pub fn get_name(&self) -> (r: &str)
        ensures
            r@ == self@.name,
    {
        self.name.as_str()
    }

    /// The members online, in the order they came.
    pub fn get_members_online(&self) -> (r: &[u32])
        ensures
            r@ == self@.members_online,
    {
        self.members_online.as_slice()
    }

    /// The recorded number of members.
    pub fn get_member_count(&self) -> (r: u32)
        ensures
            r == self@.member_count,
    {
        self.member_count
    }

    /// Records the number of members.
    pub fn set_member_count(&mut self, count: u32)
        ensures
            final(self)@ == (GuildView { member_count: count, ..old(self)@ }),
    {
        self.member_count = count;
    }

    /// The ranks, in the order they were added.
    pub fn get_ranks(&self) -> (r: &[GuildRankPtr])
        ensures
            r@.map_values(|p: GuildRankPtr| *p) == self@.ranks,
    {
        self.ranks.as_slice()
    }

    fn find_rank(&self, p: Ghost<spec_fn(GuildRank) -> bool>, by: u8, id: u32, name: &String, level: u8) -> (r: Option<GuildRankPtr>)
        requires
            by == 0 ==> forall|g: GuildRank| #[trigger] p@(g) == (g.id == id),
            by == 1 ==> forall|g: GuildRank| #[trigger] p@(g) == (g.name@ == name@),
            by >= 2 ==> forall|g: GuildRank| #[trigger] p@(g) == (g.level == level),
        ensures
            match r {
                Some(rank) => first_rank(self@.ranks, p@) == Some(*rank),
                None => first_rank(self@.ranks, p@) is None,
            },
    {
        let ghost ranks = self@.ranks;
        let mut i: usize = 0;
        while i < self.ranks.len()
            invariant
                i <= ranks.len(),
                ranks == self@.ranks,
                ranks.len() == self.ranks@.len(),
                by == 0 ==> forall|g: GuildRank| #[trigger] p@(g) == (g.id == id),
                by == 1 ==> forall|g: GuildRank| #[trigger] p@(g) == (g.name@ == name@),
                by >= 2 ==> forall|g: GuildRank| #[trigger] p@(g) == (g.level == level),
                forall|j: int| 0 <= j < i ==> !p@(#[trigger] ranks[j]),
            decreases ranks.len() - i,
        {
            let rank = &self.ranks[i];
            assert(ranks[i as int] == **rank);
            let hit = if by == 0 {
                rank.id == id
            } else if by == 1 {
                rank.name == *name
            } else {
                rank.level == level
            };
            if hit {
                proof {
                    lemma_first_rank_step(ranks, p@, i as int);
                    assert(ranks.skip(i as int)[0] == ranks[i as int]);
                }
                return Some(share_rank(rank));
            }
            i = i + 1;
        }
        proof {
            lemma_first_rank_none(ranks, p@);
        }
        None
    }

    /// The first rank with id `rank_id`.
    pub fn get_rank_by_id(&self, rank_id: u32) -> (r: Option<GuildRankPtr>)
        ensures
            match r {
                Some(rank) => first_rank(self@.ranks, |g: GuildRank| g.id == rank_id) == Some(*rank),
                None => first_rank(self@.ranks, |g: GuildRank| g.id == rank_id) is None,
            },
    {
        let ghost p = |g: GuildRank| g.id == rank_id;
        self.find_rank(Ghost(p), 0, rank_id, &String::new(), 0)
    }

    /// The first rank called `name` (compared exactly).
    pub fn get_rank_by_name(&self, name: &str) -> (r: Option<GuildRankPtr>)
        ensures
            match r {
                Some(rank) => first_rank(self@.ranks, |g: GuildRank| g.name@ == name@) == Some(*rank),
                None => first_rank(self@.ranks, |g: GuildRank| g.name@ == name@) is None,
            },
    {
        let ghost p = |g: GuildRank| g.name@ == name@;
        let target = name.to_owned();
        self.find_rank(Ghost(p), 1, 0, &target, 0)
    }

    /// The first rank of level `level`.
    pub fn get_rank_by_level(&self, level: u8) -> (r: Option<GuildRankPtr>)
        ensures
            match r {
                Some(rank) => first_rank(self@.ranks, |g: GuildRank| g.level == level) == Some(*rank),
                None => first_rank(self@.ranks, |g: GuildRank| g.level == level) is None,
            },
    {
        let ghost p = |g: GuildRank| g.level == level;
        self.find_rank(Ghost(p), 2, 0, &String::new(), level)
    }

    /// Adds a rank after the existing ones.
    pub fn add_rank(&mut self, rank_id: u32, name: String, level: u8)
        ensures
            final(self)@ == (GuildView {
                ranks: old(self)@.ranks.push(GuildRank { id: rank_id, name, level }),
                ..old(self)@
            }),
    {
        let ghost before = self.ranks@;
        self.ranks.push(Arc::new(GuildRank { id: rank_id, name, level }));
        assert(self.ranks@.map_values(|r: GuildRankPtr| *r) =~= before.map_values(
            |r: GuildRankPtr| *r,
        ).push(GuildRank { id: rank_id, name, level }));
    }

    /// The message of the day.
    pub fn get_motd(&self) -> (r: &str)
        ensures
            r@ == self@.motd,
    {
        self.motd.as_str()
    }

    /// Sets the message of the day.
    pub fn set_motd(&mut self, motd: String)
        ensures
            final(self)@ == (GuildView { motd: motd@, ..old(self)@ }),
    {
        self.motd = motd;
    }

    /// Whether no member is online.
    pub fn is_members_online_empty(&self) -> (r: bool)
        ensures
            r == (self@.members_online.len() == 0),
    {
        self.members_online.len() == 0
    }
}

/// After a member goes offline he is no longer listed, and the others keep
/// their order.
pub proof fn law_removed_member_gone(members: Seq<u32>, player_id: u32)
    ensures
        !members.filter(other_than(player_id)).contains(player_id),
        members.filter(other_than(player_id)).len() <= members.len(),
{
    broadcast use vstd::seq_lib::group_filter_ensures;
    if members.filter(other_than(player_id)).contains(player_id) {
        let i = choose|i: int| 0 <= i < members.filter(other_than(player_id)).len()
            && members.filter(other_than(player_id))[i] == player_id;
        assert(other_than(player_id)(members.filter(other_than(player_id))[i]));
    }
}

} // verus!

