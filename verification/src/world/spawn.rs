//! Spawns: the monster and NPC placements of the map, the zone around each
//! spawn centre, and the registry of all spawns.
use vstd::prelude::*;
use std::collections::BTreeMap;
use vstd::std_specs::iter::IteratorSpec;
use crate::map::{direction_number, Direction, Position};
use crate::util::xml::{
    XmlNode, XmlNodeView, attribute_from, attribute_opt, attribute_value, attribute_or, child_named,
    children_named, children_upto, nodes_view, parse_signed, parse_signed_str, parse_unsigned,
    parse_unsigned_str, parse_xml, root_element, root_element_from, xml_document,
};

verus! {

/// The shortest respawn interval, in milliseconds.
pub const MINSPAWN_INTERVAL: i32 = 10 * 1000;
/// The longest respawn interval, in milliseconds.
pub const MAXSPAWN_INTERVAL: i32 = 24 * 60 * 60 * 1000;

/// One monster placement: where, which monsters (with weights), when it
/// last spawned, how often, and facing which way.
#[derive(Debug, Clone)]
pub struct SpawnBlock {
    pub pos: Position,
    pub monster_names: Vec<(String, u16)>,
    pub last_spawn: i64,
    pub interval: u32,
    pub direction: Direction,
}

/// One NPC placement.
#[derive(Debug, Clone)]
pub struct NpcBlock {
    pub pos: Position,
    pub name: String,
    pub direction: Direction,
}

/// A spawn: its centre and radius (-1 for no limit), the shortest interval
/// of its blocks, the creature spawned for each block, its monster blocks
/// numbered from 1, and its NPCs.
pub struct Spawn {
    pub center_pos: Position,
    pub radius: i32,
    pub interval: u32,
    pub spawned_map: BTreeMap<u32, u32>,
    pub spawn_map: BTreeMap<u32, SpawnBlock>,
    pub npc_blocks: Vec<NpcBlock>,
}

/// Whether `pos` lies in the square of `radius` around `center` (any
/// position for radius -1; the floor does not matter).
pub open spec fn in_zone(center: Position, radius: int, pos: Position) -> bool {
    radius == -1 || (center.x - radius <= pos.x <= center.x + radius && center.y - radius <= pos.y
        <= center.y + radius)
}

/// The spawned creatures of `m` other than `creature_id`.
pub open spec fn without_creature(m: Map<u32, u32>, creature_id: u32) -> Map<u32, u32> {
    Map::new(|k: u32| m.contains_key(k) && m[k] != creature_id, |k: u32| m[k])
}

impl Spawn {
    /// A spawn around `pos` with no blocks and an interval of a minute.
    pub fn new(pos: Position, radius: i32) -> (s: Self)
        ensures
            s.center_pos == pos,
            s.radius == radius,
            s.interval == 60000,
            s.spawned_map@ == Map::<u32, u32>::empty(),
            s.spawn_map@ == Map::<u32, SpawnBlock>::empty(),
            s.npc_blocks@ == Seq::<NpcBlock>::empty(),
    {
        Spawn {
            center_pos: pos,
            radius,
            interval: 60000,
            spawned_map: BTreeMap::new(),
            spawn_map: BTreeMap::new(),
            npc_blocks: Vec::new(),
        }
    }

    /// Adds a monster block under the next number (the count of blocks
    /// plus one); the spawn's interval becomes the shorter of the two.
    pub fn add_block(&mut self, sb: SpawnBlock) -> (r: bool)
        requires
            old(self).spawn_map@.len() < u32::MAX,
        ensures
            r,
            final(self).interval == if sb.interval < old(self).interval {
                sb.interval
            } else {
                old(self).interval
            },
            final(self).spawn_map@ == old(self).spawn_map@.insert(
                (old(self).spawn_map@.len() + 1) as u32,
                sb,
            ),
            final(self).center_pos == old(self).center_pos,
            final(self).radius == old(self).radius,
            final(self).spawned_map == old(self).spawned_map,
            final(self).npc_blocks == old(self).npc_blocks,
    {
        if sb.interval < self.interval {
            self.interval = sb.interval;
        }
        let next_id = self.spawn_map.len() as u32 + 1;
        self.spawn_map.insert(next_id, sb);
        true
    }

    /// Adds a block of one monster, weight 100, never spawned yet.
    pub fn add_monster(&mut self, name: &str, pos: Position, dir: Direction, interval: u32) -> (r: bool)
        requires
            old(self).spawn_map@.len() < u32::MAX,
        ensures
            r,
            final(self).interval == if interval < old(self).interval {
                interval
            } else {
                old(self).interval
            },
            ({
                let id = (old(self).spawn_map@.len() + 1) as u32;
                let sb = final(self).spawn_map@[id];
                &&& final(self).spawn_map@ == old(self).spawn_map@.insert(id, sb)
                &&& sb.pos == pos && sb.direction == dir && sb.interval == interval
                &&& sb.last_spawn == 0
                &&& sb.monster_names@.len() == 1
                &&& sb.monster_names@[0].0@ == name@ && sb.monster_names@[0].1 == 100
            }),
            final(self).center_pos == old(self).center_pos,
            final(self).radius == old(self).radius,
            final(self).spawned_map == old(self).spawned_map,
            final(self).npc_blocks == old(self).npc_blocks,
    {
        let mut names: Vec<(String, u16)> = Vec::new();
        names.push((name.to_owned(), 100));
        let sb = SpawnBlock { monster_names: names, pos, direction: dir, interval, last_spawn: 0 };
        self.add_block(sb)
    }

    /// Forgets every block's record of having spawned `creature_id`.
    pub fn remove_monster(&mut self, creature_id: u32)
        ensures
            final(self).spawned_map@ == without_creature(old(self).spawned_map@, creature_id),
            final(self).center_pos == old(self).center_pos,
            final(self).radius == old(self).radius,
            final(self).interval == old(self).interval,
            final(self).spawn_map == old(self).spawn_map,
            final(self).npc_blocks == old(self).npc_blocks,
    {
        let ghost m = self.spawned_map@;
        let ghost all = vstd::std_specs::btree::spec_btree_map_iter(&self.spawned_map).remaining();
        let mut doomed: Vec<u32> = Vec::new();
        for kv in it: self.spawned_map.iter()
            invariant
                m == self.spawned_map@,
                it.seq() == all,
                forall|j: int| 0 <= j < doomed@.len() ==> m.contains_key(#[trigger] doomed@[j]) && m[doomed@[j]] == creature_id,
                forall|j: int| 0 <= j < it.index() && *(#[trigger] it.seq()[j]).1 == creature_id ==> doomed@.contains(*it.seq()[j].0),
        {
            let ghost before = doomed@;
            if *kv.1 == creature_id {
                doomed.push(*kv.0);
                proof {
                    assert forall|x: u32| before.contains(x) implies doomed@.contains(x) by {
                        let w = choose|w: int| 0 <= w < before.len() && before[w] == x;
                        assert(doomed@[w] == x);
                    }
                    assert(doomed@[before.len() as int] == *kv.0);
                }
            }
        }
        proof {
            assert forall|k: u32| #[trigger] m.contains_key(k) && m[k] == creature_id implies doomed@.contains(k) by {
                assert(all.contains((&k, &m[k])));
                let j = choose|j: int| 0 <= j < all.len() && all[j] == (&k, &m[k]);
                assert(*all[j].1 == creature_id);
            }
        }
        let mut i: usize = 0;
        while i < doomed.len()
            invariant
                i <= doomed@.len(),
                forall|j: int| 0 <= j < doomed@.len() ==> m.contains_key(#[trigger] doomed@[j]) && m[doomed@[j]] == creature_id,
                forall|k: u32| #[trigger] m.contains_key(k) && m[k] == creature_id ==> doomed@.contains(k),
                self.spawned_map@ == m.remove_keys(doomed@.take(i as int).to_set()),
                self.center_pos == old(self).center_pos,
                self.radius == old(self).radius,
                self.interval == old(self).interval,
                self.spawn_map == old(self).spawn_map,
                self.npc_blocks == old(self).npc_blocks,
                m == old(self).spawned_map@,
            decreases doomed@.len() - i,
        {
            let k = doomed[i];
            self.spawned_map.remove(&k);
            proof {
                assert(doomed@.take(i + 1).to_set() =~= doomed@.take(i as int).to_set().insert(k)) by {
                    assert(doomed@.take(i + 1) =~= doomed@.take(i as int).push(k));
                    doomed@.take(i as int).lemma_push_to_set_commute(k);
                }
                assert(self.spawned_map@ =~= m.remove_keys(doomed@.take(i + 1).to_set()));
            }
            i = i + 1;
        }
        proof {
            assert(doomed@.take(i as int) =~= doomed@);
            assert(self.spawned_map@ =~= without_creature(m, creature_id)) by {
                assert forall|k: u32| #[trigger] self.spawned_map@.contains_key(k) == without_creature(m, creature_id).contains_key(k) by {
                    if m.contains_key(k) && m[k] == creature_id {
                        assert(doomed@.to_set().contains(k));
                    }
                    if doomed@.to_set().contains(k) {
                        let j = choose|j: int| 0 <= j < doomed@.len() && doomed@[j] == k;
                        assert(m[doomed@[j]] == creature_id);
                    }
                }
            }
        }
    }

    /// Whether `pos` is in this spawn's zone.
    pub fn is_in_spawn_zone(&self, pos: Position) -> (r: bool)
        ensures
            r == in_zone(self.center_pos, self.radius as int, pos),
    {
        Spawns::is_in_zone(self.center_pos, self.radius, pos)
    }

    /// The shortest interval of the spawn's blocks.
    pub fn get_interval(&self) -> (r: u32)
        ensures
            r == self.interval,
    {
        self.interval
    }
}

/// All spawns of the map, the NPCs placed, the file they came from, and
/// whether they are loaded and started.
pub struct Spawns {
    pub spawn_list: Vec<Spawn>,
    pub npc_list: Vec<u32>,
    pub filename: String,
    pub loaded: bool,
    pub started: bool,
}

impl Default for Spawns {
    fn default() -> (s: Self)
        ensures
            s.spawn_list@.len() == 0,
            s.npc_list@.len() == 0,
            s.filename@.len() == 0,
            !s.loaded,
            !s.started,
    {
        Spawns::new()
    }
}

impl Spawns {
    /// An empty registry, not loaded or started.
    pub fn new() -> (s: Self)
        ensures
            s.spawn_list@.len() == 0,
            s.npc_list@.len() == 0,
            s.filename@.len() == 0,
            !s.loaded,
            !s.started,
    {
        Spawns {
            spawn_list: Vec::new(),
            npc_list: Vec::new(),
            filename: String::new(),
            loaded: false,
            started: false,
        }
    }

    /// Whether `pos` lies within `radius` of `center` in x and y (always
    /// for radius -1).
    pub fn is_in_zone(center: Position, radius: i32, pos: Position) -> (r: bool)
        ensures
            r == in_zone(center, radius as int, pos),
    {
        if radius == -1 {
            return true;
        }
        let r = radius as i64;
        (pos.x as i64 >= center.x as i64 - r) && (pos.x as i64 <= center.x as i64 + r) && (pos.y as i64
            >= center.y as i64 - r) && (pos.y as i64 <= center.y as i64 + r)
    }

    /// Forgets all spawns and the file name; not loaded or started.
    pub fn clear(&mut self)
        ensures
            final(self).spawn_list@.len() == 0,
            final(self).filename@.len() == 0,
            !final(self).loaded,
            !final(self).started,
            final(self).npc_list == old(self).npc_list,
    {
        self.spawn_list.clear();
        self.loaded = false;
        self.started = false;
        self.filename = String::new();
    }

    /// Whether the spawns have started.
    pub fn is_started(&self) -> (r: bool)
        ensures
            r == self.started,
    {
        self.started
    }

    /// Whether the spawns are loaded.
    pub fn is_loaded(&self) -> (r: bool)
        ensures
            r == self.loaded,
    {
        self.loaded
    }
}

/// A spawn without a radius limit covers every position, and a spawn with
/// a radius covers its own centre.
pub proof fn law_zone_covers_centre(center: Position, radius: int, pos: Position)
    requires
        radius == -1 || radius >= 0,
    ensures
        in_zone(center, -1, pos),
        in_zone(center, radius, center),
{
}

/// A monster of a spawn as the spawns file gives it: its name, its place
/// relative to the spawn centre, its floor and its respawn time in
/// seconds (each absent when missing or unreadable).
#[derive(Debug, Clone)]
pub struct SpawnMonsterEntry {
    pub name: String,
    pub x: Option<i16>,
    pub y: Option<i16>,
    pub z: Option<u8>,
    pub spawntime: Option<u64>,
}

/// An NPC of a spawn as the spawns file gives it.
#[derive(Debug, Clone)]
pub struct SpawnNpcEntry {
    pub name: String,
    pub x: Option<i16>,
    pub y: Option<i16>,
    pub z: Option<u8>,
    pub direction: Option<u8>,
}

/// A spawn as the spawns file gives it.
#[derive(Debug, Clone)]
pub struct SpawnEntry {
    pub centerx: Option<u16>,
    pub centery: Option<u16>,
    pub centerz: Option<u8>,
    pub radius: Option<i32>,
    pub monsters: Vec<SpawnMonsterEntry>,
    pub npcs: Vec<SpawnNpcEntry>,
}

/// The value of an optional entry field, or its default.
pub open spec fn or_default<T>(v: Option<T>, d: T) -> T {
    match v {
        Some(x) => x,
        None => d,
    }
}

/// The centre of a spawn entry (x and y default to 0, the floor to 7).
pub open spec fn entry_center(e: SpawnEntry) -> Position {
    Position { x: or_default(e.centerx, 0u16), y: or_default(e.centery, 0u16), z: or_default(e.centerz, 7u8) }
}

/// A coordinate offset from the centre, kept within the map.
pub open spec fn offset_coordinate(c: u16, d: i16) -> u16 {
    if c + d < 0 {
        0
    } else if c + d > u16::MAX {
        u16::MAX
    } else {
        (c + d) as u16
    }
}

/// Where an entry placed `dx`, `dy` from the centre on floor `z` (the
/// centre's floor by default) stands.
pub open spec fn entry_position(center: Position, dx: Option<i16>, dy: Option<i16>, z: Option<u8>) -> Position {
    Position {
        x: offset_coordinate(center.x, or_default(dx, 0i16)),
        y: offset_coordinate(center.y, or_default(dy, 0i16)),
        z: or_default(z, center.z),
    }
}

/// The respawn interval of a monster entry: its time (60 seconds by
/// default) in milliseconds, truncated to 32 bits, kept between the
/// shortest and longest intervals.
pub open spec fn entry_interval(m: SpawnMonsterEntry) -> u32 {
    let ms = ((or_default(m.spawntime, 60u64) * 1000) as u64) as u32;
    if ms < MINSPAWN_INTERVAL as u32 {
        MINSPAWN_INTERVAL as u32
    } else if ms > MAXSPAWN_INTERVAL as u32 {
        MAXSPAWN_INTERVAL as u32
    } else {
        ms
    }
}

/// Whether a monster entry's respawn time fits the millisecond arithmetic.
pub open spec fn time_fits(m: SpawnMonsterEntry) -> bool {
    or_default(m.spawntime, 60u64) <= u64::MAX / 1000
}

/// The monster entries that name a monster.
pub open spec fn named_monsters(ms: Seq<SpawnMonsterEntry>) -> Seq<SpawnMonsterEntry> {
    ms.filter(|m: SpawnMonsterEntry| m.name@.len() > 0)
}

/// The NPC entries that name an NPC.
pub open spec fn named_npcs(ns: Seq<SpawnNpcEntry>) -> Seq<SpawnNpcEntry> {
    ns.filter(|n: SpawnNpcEntry| n.name@.len() > 0)
}

/// The direction an NPC entry faces: the one numbered in the file (2,
/// south, by default), south for an unknown number.
pub open spec fn entry_direction(n: SpawnNpcEntry) -> Direction {
    let d = or_default(n.direction, 2u8);
    if d < 8 {
        choose|dir: Direction| direction_number(dir) == d
    } else {
        Direction::South
    }
}

/// The shortest interval among `ms`, starting from one minute.
pub open spec fn min_interval(ms: Seq<SpawnMonsterEntry>) -> u32
    decreases ms.len(),
{
    if ms.len() == 0 {
        60000
    } else {
        let rest = min_interval(ms.drop_last());
        let i = entry_interval(ms.last());
        if i < rest { i } else { rest }
    }
}

/// Whether `b` is the block that monster entry `m` of a spawn centred at
/// `center` describes.
pub open spec fn is_block_of(b: SpawnBlock, m: SpawnMonsterEntry, center: Position) -> bool {
    &&& b.pos == entry_position(center, m.x, m.y, m.z)
    &&& b.direction == Direction::South
    &&& b.interval == entry_interval(m)
    &&& b.last_spawn == 0
    &&& b.monster_names@.len() == 1
    &&& b.monster_names@[0].0@ == m.name@
    &&& b.monster_names@[0].1 == 100
}

/// Whether `b` is the NPC placement that entry `n` describes.
pub open spec fn is_npc_of(b: NpcBlock, n: SpawnNpcEntry, center: Position) -> bool {
    &&& b.pos == entry_position(center, n.x, n.y, n.z)
    &&& b.name@ == n.name@
    &&& b.direction == entry_direction(n)
}

/// Whether `s` is the spawn that entry `e` describes: its centre and
/// radius (0 by default), a block numbered from 1 for each named monster,
/// the named NPCs, and nothing spawned yet.
pub open spec fn is_spawn_of(s: Spawn, e: SpawnEntry) -> bool {
    let center = entry_center(e);
    let ms = named_monsters(e.monsters@);
    let ns = named_npcs(e.npcs@);
    &&& s.center_pos == center
    &&& s.radius == or_default(e.radius, 0i32)
    &&& s.interval == min_interval(ms)
    &&& s.spawned_map@ == Map::<u32, u32>::empty()
    &&& s.spawn_map@.dom() == Set::new(|k: u32| 1 <= k <= ms.len())
    &&& forall|i: int| 0 <= i < ms.len() ==> is_block_of(#[trigger] s.spawn_map@[(i + 1) as u32], ms[i], center)
    &&& s.npc_blocks@.len() == ns.len()
    &&& forall|i: int| 0 <= i < ns.len() ==> is_npc_of(#[trigger] s.npc_blocks@[i], ns[i], center)
}

/// Whether a spawn entry places anything.
pub open spec fn places_anything(e: SpawnEntry) -> bool {
    named_monsters(e.monsters@).len() > 0 || named_npcs(e.npcs@).len() > 0
}

fn offset(c: u16, d: i16) -> (r: u16)
    ensures
        r == offset_coordinate(c, d),
{
    let v: i32 = c as i32 + d as i32;
    if v < 0 {
        0
    } else if v > 65535 {
        65535
    } else {
        v as u16
    }
}

fn opt_i16(v: Option<i16>) -> (r: i16)
    ensures
        r == or_default(v, 0i16),
{
    match v {
        Some(x) => x,
        None => 0,
    }
}

fn spawn_from_entry(e: SpawnEntry) -> (s: Spawn)
    requires
        e.monsters@.len() < u32::MAX,
        forall|i: int| 0 <= i < e.monsters@.len() && (#[trigger] e.monsters@[i]).name@.len() > 0 ==> time_fits(e.monsters@[i]),
    ensures
        is_spawn_of(s, e),
        s.spawn_map@.len() == named_monsters(e.monsters@).len(),
{
    let ghost e0 = e;
    let centerx = match e.centerx {
        Some(v) => v,
        None => 0,
    };
    let centery = match e.centery {
        Some(v) => v,
        None => 0,
    };
    let centerz = match e.centerz {
        Some(v) => v,
        None => 7,
    };
    let radius = match e.radius {
        Some(v) => v,
        None => 0,
    };
    let center = Position { x: centerx, y: centery, z: centerz };
    let mut spawn = Spawn::new(center, radius);
    let ghost ms_all = e.monsters@;
    let mut i: usize = 0;
    proof {
        assert(ms_all.take(0) =~= Seq::<SpawnMonsterEntry>::empty());
        reveal(Seq::filter);
    }
    while i < e.monsters.len()
        invariant
            i <= ms_all.len(),
            ms_all == e.monsters@,
            ms_all.len() < u32::MAX,
            forall|k: int| 0 <= k < ms_all.len() && (#[trigger] ms_all[k]).name@.len() > 0 ==> time_fits(ms_all[k]),
            center == entry_center(e0),
            center == (Position { x: centerx, y: centery, z: centerz }),
            e0 == e,
            spawn.center_pos == center,
            spawn.radius == radius,
            radius == or_default(e.radius, 0i32),
            spawn.interval == min_interval(named_monsters(ms_all.take(i as int))),
            spawn.spawned_map@ == Map::<u32, u32>::empty(),
            spawn.spawn_map@.dom().finite(),
            spawn.spawn_map@.len() == named_monsters(ms_all.take(i as int)).len(),
            forall|k: u32| #[trigger] spawn.spawn_map@.contains_key(k) <==> 1 <= k <= named_monsters(ms_all.take(i as int)).len(),
            forall|k: int| 0 <= k < named_monsters(ms_all.take(i as int)).len() ==> is_block_of(
                #[trigger] spawn.spawn_map@[(k + 1) as u32],
                named_monsters(ms_all.take(i as int))[k],
                center,
            ),
            spawn.npc_blocks@.len() == 0,
            named_monsters(ms_all.take(i as int)).len() <= i,
        decreases ms_all.len() - i,
    {
        let m = &e.monsters[i];
        let ghost before = named_monsters(ms_all.take(i as int));
        proof {
            assert(ms_all.take(i + 1) =~= ms_all.take(i as int).push(ms_all[i as int]));
            ms_all.take(i as int).lemma_filter_push(ms_all[i as int], |m: SpawnMonsterEntry| m.name@.len() > 0);
        }
        if !m.name.as_str().is_empty() {
            let x = offset(centerx, opt_i16(m.x));
            let y = offset(centery, opt_i16(m.y));
            let z = match m.z {
                Some(v) => v,
                None => centerz,
            };
            let secs: u64 = match m.spawntime {
                Some(v) => v,
                None => 60,
            };
            proof {
                assert(time_fits(ms_all[i as int]));
            }
            let ms: u32 = #[verifier::truncate] ((secs * 1000) as u32);
            let interval: u32 = if ms < 10000 {
                10000
            } else if ms > 86400000 {
                86400000
            } else {
                ms
            };
            let ghost old_map = spawn.spawn_map@;
            let ghost old_interval = spawn.interval;
            let ghost id = (before.len() + 1) as u32;
            proof {
                assert(!old_map.contains_key(id));
                assert(before.push(ms_all[i as int]).drop_last() =~= before);
            }
            spawn.add_monster(m.name.as_str(), Position { x, y, z }, Direction::South, interval);
            proof {
                let after = named_monsters(ms_all.take(i + 1));
                assert(after == before.push(ms_all[i as int]));
                assert(spawn.spawn_map@ == old_map.insert(id, spawn.spawn_map@[id]));
                assert(spawn.spawn_map@.dom() =~= old_map.dom().insert(id));
                assert forall|k: int| 0 <= k < after.len() implies is_block_of(
                    #[trigger] spawn.spawn_map@[(k + 1) as u32],
                    after[k],
                    center,
                ) by {
                    if k < before.len() {
                        assert(after[k] == before[k]);
                        assert((k + 1) as u32 != id);
                    } else {
                        let mm = ms_all[i as int];
                        assert(after[k] == mm);
                        assert(*m == mm);
                        let b = spawn.spawn_map@[id];
                        assert((k + 1) as u32 == id);
                        assert(b.pos == entry_position(center, mm.x, mm.y, mm.z));
                        assert(MINSPAWN_INTERVAL as u32 == 10000u32);
                        assert(MAXSPAWN_INTERVAL as u32 == 86400000u32);
                        assert(b.interval == entry_interval(mm));
                        assert(b.monster_names@[0].0@ == mm.name@);
                    }
                }
            }
        }
        i = i + 1;
    }
    proof {
        assert(ms_all.take(i as int) =~= ms_all);
    }
    let ghost ns_all = e.npcs@;
    let mut j: usize = 0;
    proof {
        assert(ns_all.take(0) =~= Seq::<SpawnNpcEntry>::empty());
        reveal(Seq::filter);
    }
    while j < e.npcs.len()
        invariant
            j <= ns_all.len(),
            ns_all == e.npcs@,
            e0 == e,
            center == entry_center(e0),
            center == (Position { x: centerx, y: centery, z: centerz }),
            spawn.center_pos == center,
            spawn.radius == or_default(e.radius, 0i32),
            spawn.interval == min_interval(named_monsters(e.monsters@)),
            spawn.spawned_map@ == Map::<u32, u32>::empty(),
            spawn.spawn_map@.len() == named_monsters(e.monsters@).len(),
            forall|k: u32| #[trigger] spawn.spawn_map@.contains_key(k) <==> 1 <= k <= named_monsters(e.monsters@).len(),
            forall|k: int| 0 <= k < named_monsters(e.monsters@).len() ==> is_block_of(
                #[trigger] spawn.spawn_map@[(k + 1) as u32],
                named_monsters(e.monsters@)[k],
                center,
            ),
            spawn.npc_blocks@.len() == named_npcs(ns_all.take(j as int)).len(),
            forall|k: int| 0 <= k < named_npcs(ns_all.take(j as int)).len() ==> is_npc_of(
                #[trigger] spawn.npc_blocks@[k],
                named_npcs(ns_all.take(j as int))[k],
                center,
            ),
        decreases ns_all.len() - j,
    {
        let n = &e.npcs[j];
        let ghost before = named_npcs(ns_all.take(j as int));
        proof {
            assert(ns_all.take(j + 1) =~= ns_all.take(j as int).push(ns_all[j as int]));
            ns_all.take(j as int).lemma_filter_push(ns_all[j as int], |n: SpawnNpcEntry| n.name@.len() > 0);
        }
        if !n.name.as_str().is_empty() {
            let x = offset(centerx, opt_i16(n.x));
            let y = offset(centery, opt_i16(n.y));
            let z = match n.z {
                Some(v) => v,
                None => centerz,
            };
            let d = match n.direction {
                Some(v) => v,
                None => 2,
            };
            let direction = match Direction::from_u8(d) {
                Some(dir) => dir,
                None => Direction::South,
            };
            proof {
                if d < 8 {
                    let c = choose|dir: Direction| direction_number(dir) == d;
                    assert(direction_number(direction) == d);
                    assert(direction_number(c) == d);
                    assert(c == direction) by {
                        assert(direction_number(c) == direction_number(direction));
                    }
                }
            }
            let ghost old_blocks = spawn.npc_blocks@;
            spawn.npc_blocks.push(NpcBlock { pos: Position { x, y, z }, name: n.name.clone(), direction });
            proof {
                let after = named_npcs(ns_all.take(j + 1));
                assert(after == before.push(ns_all[j as int]));
                assert forall|k: int| 0 <= k < after.len() implies is_npc_of(
                    #[trigger] spawn.npc_blocks@[k],
                    after[k],
                    center,
                ) by {
                    if k < before.len() {
                        assert(after[k] == before[k]);
                        assert(spawn.npc_blocks@[k] == old_blocks[k]);
                    } else {
                        let nn = ns_all[j as int];
                        assert(after[k] == nn);
                        assert(*n == nn);
                        let b = spawn.npc_blocks@[k];
                        assert(b.pos == entry_position(center, nn.x, nn.y, nn.z));
                        assert(b.name@ == nn.name@);
                        assert(b.direction == entry_direction(nn));
                    }
                }
            }
        }
        j = j + 1;
    }
    proof {
        assert(ns_all.take(j as int) =~= ns_all);
        assert(spawn.spawn_map@.dom() =~= Set::new(|k: u32| 1 <= k <= named_monsters(e.monsters@).len()));
    }
    spawn
}

/// Whether a spawn entry fits the arithmetic of loading: fewer than
/// `u32::MAX` monsters, and respawn times of named monsters that fit in
/// milliseconds.
pub open spec fn entry_fits(e: SpawnEntry) -> bool {
    e.monsters@.len() < u32::MAX && forall|i: int|
        0 <= i < e.monsters@.len() && (#[trigger] e.monsters@[i]).name@.len() > 0 ==> time_fits(e.monsters@[i])
}

/// The spawn entries that place anything.
pub open spec fn placing_entries(es: Seq<SpawnEntry>) -> Seq<SpawnEntry> {
    es.filter(|e: SpawnEntry| places_anything(e))
}

impl Spawns {
    /// Adds the spawns the file's entries describe (those that place
    /// anything) and records the file's name; a registry already loaded
    /// is left as it is.
    pub fn load_entries(&mut self, entries: Vec<SpawnEntry>, filename: String)
        requires
            forall|i: int| 0 <= i < entries@.len() ==> entry_fits(#[trigger] entries@[i]),
        ensures
            old(self).loaded ==> *final(self) == *old(self),
            !old(self).loaded ==> ({
                let added = placing_entries(entries@);
                &&& final(self).loaded
                &&& final(self).started == old(self).started
                &&& final(self).filename@ == filename@
                &&& final(self).npc_list == old(self).npc_list
                &&& final(self).spawn_list@.len() == old(self).spawn_list@.len() + added.len()
                &&& forall|i: int| 0 <= i < old(self).spawn_list@.len() ==> #[trigger] final(self).spawn_list@[i]
                    == old(self).spawn_list@[i]
                &&& forall|i: int| 0 <= i < added.len() ==> is_spawn_of(
                    #[trigger] final(self).spawn_list@[old(self).spawn_list@.len() + i],
                    added[i],
                )
            }),
    {
        if self.loaded {
            return;
        }
        let ghost all = entries@;
        let ghost start = self.spawn_list@;
        let total: usize = entries.len();
        let mut rest = entries;
        let mut n: usize = 0;
        proof {
            assert(all.take(0) =~= Seq::<SpawnEntry>::empty());
            reveal(Seq::filter);
        }
        while rest.len() > 0
            invariant
                n + rest@.len() == all.len(),
                all.len() == total,
                rest@ == all.skip(n as int),
                forall|i: int| 0 <= i < all.len() ==> entry_fits(#[trigger] all[i]),
                self.spawn_list@.len() == start.len() + placing_entries(all.take(n as int)).len(),
                forall|i: int| 0 <= i < start.len() ==> #[trigger] self.spawn_list@[i] == start[i],
                forall|i: int| 0 <= i < placing_entries(all.take(n as int)).len() ==> is_spawn_of(
                    #[trigger] self.spawn_list@[start.len() + i],
                    placing_entries(all.take(n as int))[i],
                ),
                start == old(self).spawn_list@,
                self.loaded == old(self).loaded,
                self.started == old(self).started,
                self.npc_list == old(self).npc_list,
            decreases rest@.len(),
        {
            let e = rest.remove(0);
            let ghost ge = e;
            let ghost before = placing_entries(all.take(n as int));
            proof {
                assert(ge == all[n as int]);
                assert(rest@ =~= all.skip(n + 1));
                assert(all.take(n + 1) =~= all.take(n as int).push(ge));
                all.take(n as int).lemma_filter_push(ge, |e: SpawnEntry| places_anything(e));
                assert(entry_fits(all[n as int]));
            }
            let spawn = spawn_from_entry(e);
            if spawn.spawn_map.len() > 0 || spawn.npc_blocks.len() > 0 {
                let ghost gs = spawn;
                let ghost old_list = self.spawn_list@;
                self.spawn_list.push(spawn);
                proof {
                    let after = placing_entries(all.take(n + 1));
                    assert(after == before.push(ge));
                    assert forall|i: int| 0 <= i < after.len() implies is_spawn_of(
                        #[trigger] self.spawn_list@[start.len() + i],
                        after[i],
                    ) by {
                        if i < before.len() {
                            assert(after[i] == before[i]);
                            assert(self.spawn_list@[start.len() + i] == old_list[start.len() + i]);
                        } else {
                            assert(self.spawn_list@[start.len() + i] == gs);
                        }
                    }
                }
            }
            n = n + 1;
        }
        proof {
            assert(all.take(n as int) =~= all);
        }
        self.filename = filename;
        self.loaded = true;
    }
}


/// Why a spawns file could not be read.
#[derive(Debug, Clone, Copy, PartialEq, Eq)]
pub enum SpawnsXmlError {
    /// The text is not a well-formed XML document.
    Malformed,
}

/// The unsigned number of at most `max` that attribute `name` spells;
/// none where it is missing or spells none (see `parse_unsigned`).
pub open spec fn unsigned_attr(n: XmlNodeView, name: Seq<char>, max: nat) -> Option<nat> {
    match attribute_from(n.attributes, name, 0) {
        Some(v) => parse_unsigned(v, max),
        None => None,
    }
}

/// The signed number between `min` and `max` that attribute `name`
/// spells; none where it is missing or spells none (see `parse_signed`).
pub open spec fn signed_attr(n: XmlNodeView, name: Seq<char>, min: int, max: int) -> Option<int> {
    match attribute_from(n.attributes, name, 0) {
        Some(v) => parse_signed(v, min, max),
        None => None,
    }
}

pub open spec fn as_u8(o: Option<nat>) -> Option<u8> {
    match o {
        Some(v) => Some(v as u8),
        None => None,
    }
}

pub open spec fn as_u16(o: Option<nat>) -> Option<u16> {
    match o {
        Some(v) => Some(v as u16),
        None => None,
    }
}

pub open spec fn as_u64(o: Option<nat>) -> Option<u64> {
    match o {
        Some(v) => Some(v as u64),
        None => None,
    }
}

pub open spec fn as_i16(o: Option<int>) -> Option<i16> {
    match o {
        Some(v) => Some(v as i16),
        None => None,
    }
}

pub open spec fn as_i32(o: Option<int>) -> Option<i32> {
    match o {
        Some(v) => Some(v as i32),
        None => None,
    }
}

/// Whether `m` is the monster entry that element `n` gives.
pub open spec fn is_monster_entry_of(m: SpawnMonsterEntry, n: XmlNodeView) -> bool {
    &&& m.name@ == attribute_or(n, "name"@, ""@)
    &&& m.x == as_i16(signed_attr(n, "x"@, -32768, 32767))
    &&& m.y == as_i16(signed_attr(n, "y"@, -32768, 32767))
    &&& m.z == as_u8(unsigned_attr(n, "z"@, 255))
    &&& m.spawntime == as_u64(unsigned_attr(n, "spawntime"@, 0xffff_ffff_ffff_ffff))
}

/// Whether `m` is the NPC entry that element `n` gives.
pub open spec fn is_npc_entry_of(m: SpawnNpcEntry, n: XmlNodeView) -> bool {
    &&& m.name@ == attribute_or(n, "name"@, ""@)
    &&& m.x == as_i16(signed_attr(n, "x"@, -32768, 32767))
    &&& m.y == as_i16(signed_attr(n, "y"@, -32768, 32767))
    &&& m.z == as_u8(unsigned_attr(n, "z"@, 255))
    &&& m.direction == as_u8(unsigned_attr(n, "direction"@, 255))
}

/// Whether `e` is the spawn entry that spawn element `s` of the document
/// gives: its centre and radius attributes (none where missing or
/// unreadable), and its `monster` and `npc` child elements in order.
pub open spec fn is_spawn_entry_of(e: SpawnEntry, nodes: Seq<XmlNodeView>, s: int) -> bool {
    let n = nodes[s];
    let ms = children_named(nodes, s, "monster"@);
    let ns = children_named(nodes, s, "npc"@);
    &&& e.centerx == as_u16(unsigned_attr(n, "centerx"@, 65535))
    &&& e.centery == as_u16(unsigned_attr(n, "centery"@, 65535))
    &&& e.centerz == as_u8(unsigned_attr(n, "centerz"@, 255))
    &&& e.radius == as_i32(signed_attr(n, "radius"@, -0x8000_0000, 0x7fff_ffff))
    &&& e.monsters@.len() == ms.len()
    &&& forall|k: int| 0 <= k < ms.len() ==> is_monster_entry_of(#[trigger] e.monsters@[k], nodes[ms[k]])
    &&& e.npcs@.len() == ns.len()
    &&& forall|k: int| 0 <= k < ns.len() ==> is_npc_entry_of(#[trigger] e.npcs@[k], nodes[ns[k]])
}

/// The spawn elements of a spawns document: the `spawn` children of its
/// root element, in order.
pub open spec fn spawn_elements(nodes: Seq<XmlNodeView>) -> Seq<int> {
    match root_element_from(nodes, 0) {
        Some(r) => children_named(nodes, r, "spawn"@),
        None => Seq::empty(),
    }
}

fn unsigned_at(nodes: &Vec<XmlNode>, i: usize, name: &str, max: u64) -> (r: Option<u64>)
    requires
        i < nodes@.len(),
    ensures
        match unsigned_attr(nodes_view(nodes@)[i as int], name@, max as nat) {
            Some(v) => r == Some(v as u64),
            None => r is None,
        },
{
    match attribute_opt(nodes, i, name) {
        Some(v) => parse_unsigned_str(v.as_str(), max),
        None => None,
    }
}

fn signed_at(nodes: &Vec<XmlNode>, i: usize, name: &str, min: i64, max: i64) -> (r: Option<i64>)
    requires
        i < nodes@.len(),
        min <= 0 <= max,
    ensures
        match signed_attr(nodes_view(nodes@)[i as int], name@, min as int, max as int) {
            Some(v) => r == Some(v as i64),
            None => r is None,
        },
{
    match attribute_opt(nodes, i, name) {
        Some(v) => parse_signed_str(v.as_str(), min, max),
        None => None,
    }
}

fn monster_entry_at(nodes: &Vec<XmlNode>, i: usize) -> (m: SpawnMonsterEntry)
    requires
        i < nodes@.len(),
    ensures
        is_monster_entry_of(m, nodes_view(nodes@)[i as int]),
{
    let x = signed_at(nodes, i, "x", -32768, 32767);
    let y = signed_at(nodes, i, "y", -32768, 32767);
    let z = unsigned_at(nodes, i, "z", 255);
    SpawnMonsterEntry {
        name: attribute_value(nodes, i, "name", ""),
        x: match x { Some(v) => Some(v as i16), None => None },
        y: match y { Some(v) => Some(v as i16), None => None },
        z: match z { Some(v) => Some(v as u8), None => None },
        spawntime: unsigned_at(nodes, i, "spawntime", 0xffff_ffff_ffff_ffff),
    }
}

fn npc_entry_at(nodes: &Vec<XmlNode>, i: usize) -> (m: SpawnNpcEntry)
    requires
        i < nodes@.len(),
    ensures
        is_npc_entry_of(m, nodes_view(nodes@)[i as int]),
{
    let x = signed_at(nodes, i, "x", -32768, 32767);
    let y = signed_at(nodes, i, "y", -32768, 32767);
    let z = unsigned_at(nodes, i, "z", 255);
    let d = unsigned_at(nodes, i, "direction", 255);
    SpawnNpcEntry {
        name: attribute_value(nodes, i, "name", ""),
        x: match x { Some(v) => Some(v as i16), None => None },
        y: match y { Some(v) => Some(v as i16), None => None },
        z: match z { Some(v) => Some(v as u8), None => None },
        direction: match d { Some(v) => Some(v as u8), None => None },
    }
}

fn spawn_entry_at(nodes: &Vec<XmlNode>, s: usize) -> (e: SpawnEntry)
    requires
        s < nodes@.len(),
    ensures
        is_spawn_entry_of(e, nodes_view(nodes@), s as int),
{
    let ghost vs = nodes_view(nodes@);
    let n = nodes.len();
    let mut monsters: Vec<SpawnMonsterEntry> = Vec::new();
    let mut npcs: Vec<SpawnNpcEntry> = Vec::new();
    let mut k: usize = 0;
    while k < n
        invariant
            n == nodes@.len(),
            vs == nodes_view(nodes@),
            k <= n,
            s < n,
            monsters@.len() == children_upto(vs, s as int, "monster"@, k as int).len(),
            forall|j: int| 0 <= j < monsters@.len() ==> is_monster_entry_of(
                #[trigger] monsters@[j],
                vs[children_upto(vs, s as int, "monster"@, k as int)[j]],
            ),
            npcs@.len() == children_upto(vs, s as int, "npc"@, k as int).len(),
            forall|j: int| 0 <= j < npcs@.len() ==> is_npc_entry_of(
                #[trigger] npcs@[j],
                vs[children_upto(vs, s as int, "npc"@, k as int)[j]],
            ),
        decreases n - k,
    {
        if child_named(nodes, s, k, "monster") {
            monsters.push(monster_entry_at(nodes, k));
        }
        if child_named(nodes, s, k, "npc") {
            npcs.push(npc_entry_at(nodes, k));
        }
        k = k + 1;
    }
    assert(vs.len() == n);
    let cx = unsigned_at(nodes, s, "centerx", 65535);
    let cy = unsigned_at(nodes, s, "centery", 65535);
    let cz = unsigned_at(nodes, s, "centerz", 255);
    let r = signed_at(nodes, s, "radius", -0x8000_0000, 0x7fff_ffff);
    SpawnEntry {
        centerx: match cx { Some(v) => Some(v as u16), None => None },
        centery: match cy { Some(v) => Some(v as u16), None => None },
        centerz: match cz { Some(v) => Some(v as u8), None => None },
        radius: match r { Some(v) => Some(v as i32), None => None },
        monsters,
        npcs,
    }
}

/// Reads the entries of a spawns file: one for each `spawn` element of the
/// root element, in order (see `is_spawn_entry_of`); an error where the
/// text is not a well-formed XML document.
pub fn spawn_entries_from_xml(text: &str) -> (r: Result<Vec<SpawnEntry>, SpawnsXmlError>)
    ensures
        match xml_document(text@) {
            None => r is Err,
            Some(nodes) => r matches Ok(es) && es@.len() == spawn_elements(nodes).len() && forall|i: int|
                0 <= i < es@.len() ==> is_spawn_entry_of(
                    #[trigger] es@[i],
                    nodes,
                    spawn_elements(nodes)[i],
                ),
        },
{
    let nodes = match parse_xml(text) {
        Some(v) => v,
        None => {
            return Err(SpawnsXmlError::Malformed);
        },
    };
    let ghost vs = nodes_view(nodes@);
    let ghost want = spawn_elements(vs);
    let mut entries: Vec<SpawnEntry> = Vec::new();
    match root_element(&nodes) {
        None => {
            assert(want =~= Seq::<int>::empty());
        },
        Some(root) => {
            let n = nodes.len();
            let mut i: usize = 0;
            while i < n
                invariant
                    n == nodes@.len(),
                    vs == nodes_view(nodes@),
                    i <= n,
                    entries@.len() == children_upto(vs, root as int, "spawn"@, i as int).len(),
                    forall|k: int| 0 <= k < entries@.len() ==> is_spawn_entry_of(
                        #[trigger] entries@[k],
                        vs,
                        children_upto(vs, root as int, "spawn"@, i as int)[k],
                    ),
                decreases n - i,
            {
                if child_named(&nodes, root, i, "spawn") {
                    entries.push(spawn_entry_at(&nodes, i));
                }
                i = i + 1;
            }
            assert(vs.len() == n);
            assert(want == children_upto(vs, root as int, "spawn"@, n as int));
        },
    }
    Ok(entries)
}

} // verus!


