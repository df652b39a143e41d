//! Map tiles: the ground, the stack of items, the creatures standing there,
//! and the state flags the items give the tile.
use vstd::prelude::*;
use crate::map::Position;
use std::collections::HashMap;

verus! {

/// The id of a creature in the game world.
pub type CreatureId = u32;

pub const TILESTATE_NONE: u32 = 0;
pub const TILESTATE_FLOORCHANGE_DOWN: u32 = 0x1;
pub const TILESTATE_FLOORCHANGE_NORTH: u32 = 0x2;
pub const TILESTATE_FLOORCHANGE_SOUTH: u32 = 0x4;
pub const TILESTATE_FLOORCHANGE_EAST: u32 = 0x8;
pub const TILESTATE_FLOORCHANGE_WEST: u32 = 0x10;
pub const TILESTATE_FLOORCHANGE_SOUTH_ALT: u32 = 0x20;
pub const TILESTATE_FLOORCHANGE_EAST_ALT: u32 = 0x40;
pub const TILESTATE_PROTECTIONZONE: u32 = 0x80;
pub const TILESTATE_NOPVPZONE: u32 = 0x100;
pub const TILESTATE_NOLOGOUT: u32 = 0x200;
pub const TILESTATE_PVPZONE: u32 = 0x400;
pub const TILESTATE_TELEPORT: u32 = 0x800;
pub const TILESTATE_MAGICFIELD: u32 = 0x1000;
pub const TILESTATE_MAILBOX: u32 = 0x2000;
pub const TILESTATE_TRASHHOLDER: u32 = 0x4000;
pub const TILESTATE_BED: u32 = 0x8000;
pub const TILESTATE_DEPOT: u32 = 0x10000;
pub const TILESTATE_BLOCKSOLID: u32 = 0x20000;
pub const TILESTATE_BLOCKPATH: u32 = 0x40000;
pub const TILESTATE_IMMOVABLEBLOCKSOLID: u32 = 0x80000;
pub const TILESTATE_IMMOVABLEBLOCKPATH: u32 = 0x100000;
pub const TILESTATE_IMMOVABLENOFIELDBLOCKPATH: u32 = 0x200000;
pub const TILESTATE_NOFIELDBLOCKPATH: u32 = 0x400000;
pub const TILESTATE_SUPPORTS_HANGABLE: u32 = 0x800000;
/// Any of the floor-change flags.
pub const TILESTATE_FLOORCHANGE: u32 = 0x7F;

/// What kind of tile: static, dynamic, or part of a house.
#[derive(Debug, Clone, Copy, PartialEq, Eq, Structural)]
pub enum TileKind {
    Static,
    Dynamic,
    House { house_id: u32 },
}

/// A custom attribute of an item. A number with a fraction is held as the
/// bits of its 64-bit IEEE form.
#[derive(Debug, Clone, PartialEq)]
pub enum CustomAttributeValue {
    String(String),
    Int(i64),
    Double(u64),
    Bool(bool),
}

/// An item on the map, with the attributes the map file and the game give it,
/// and the items inside it.
#[derive(Debug, Default)]
pub struct MapItem {
    pub server_id: u16,
    pub count: u16,
    pub action_id: u16,
    pub unique_id: u16,
    pub text: String,
    pub description: String,
    pub teleport_destination: Option<Position>,
    pub depot_id: u16,
    pub rune_charges: u8,
    pub house_door_id: u8,
    pub charges: u16,
    pub duration: i32,
    pub decaying_state: u8,
    pub written_date: u32,
    pub written_by: String,
    pub sleeper_guid: u32,
    pub sleep_start: u32,
    pub name: String,
    pub article: String,
    pub plural_name: String,
    pub weight: u32,
    pub attack: i32,
    pub defense: i32,
    pub extra_defense: i32,
    pub armor: i32,
    pub hit_chance: i8,
    pub shoot_range: u8,
    pub decay_to: i32,
    pub fluid_type: u16,
    pub loaded_from_map: bool,
    pub custom_attributes: HashMap<String, CustomAttributeValue>,
    pub children: Vec<MapItem>,
    pub owner_id: u32,
}

/// A tile: its position and kind, its state flags, the ground, the items
/// (the first `down_item_count` of them lie under the creatures, the rest on
/// top), and the creatures, the last to arrive first.
#[derive(Debug)]
pub struct Tile {
    pub position: Position,
    pub kind: TileKind,
    pub flags: u32,
    pub ground: Option<MapItem>,
    pub items: Vec<MapItem>,
    pub creature_ids: Vec<CreatureId>,
    down_item_count: u16,
}

/// What a tile holds, as the contracts see it.
pub struct TileView {
    pub position: Position,
    pub kind: TileKind,
    pub flags: u32,
    pub ground: Option<MapItem>,
    pub items: Seq<MapItem>,
    pub creature_ids: Seq<CreatureId>,
    /// How many of the items lie under the creatures.
    pub down: int,
}

impl View for Tile {
    type V = TileView;

    closed spec fn view(&self) -> TileView {
        TileView {
            position: self.position,
            kind: self.kind,
            flags: self.flags,
            ground: self.ground,
            items: self.items@,
            creature_ids: self.creature_ids@,
            down: self.down_item_count as int,
        }
    }
}

/// The number of items on top of the creatures.
pub open spec fn top_item_count(len: int, down: int) -> int {
    if len >= down {
        len - down
    } else {
        0
    }
}

/// The client's stack position of the item at `index` on a tile: the ground
/// first, then the items on top, then the items underneath (each count taken
/// as a byte, sums saturating).
pub open spec fn client_stackpos(has_ground: bool, top: int, down: int, index: int) -> u8 {
    let g: u8 = if has_ground {
        1
    } else {
        0
    };
    if index >= down {
        g.saturating_add((index - down) as u8)
    } else {
        g.saturating_add(top as u8).saturating_add(index as u8)
    }
}

/// The index of the last occurrence of `id` in `s`, if any.
pub open spec fn last_index_of(s: Seq<CreatureId>, id: CreatureId) -> Option<int>
    decreases s.len(),
{
    if s.len() == 0 {
        None
    } else if s.last() == id {
        Some(s.len() - 1)
    } else {
        last_index_of(s.drop_last(), id)
    }
}

/// The index of the first item with `server_id` in `s`, if any.
pub open spec fn first_item_with(s: Seq<MapItem>, server_id: u16) -> Option<int>
    decreases s.len(),
{
    if s.len() == 0 {
        None
    } else if s[0].server_id == server_id {
        Some(0)
    } else {
        match first_item_with(s.drop_first(), server_id) {
            Some(i) => Some(i + 1),
            None => None,
        }
    }
}

/// The sequence with the first occurrence of `id` removed.
pub open spec fn remove_first(s: Seq<CreatureId>, id: CreatureId) -> Seq<CreatureId>
    decreases s.len(),
{
    if s.len() == 0 {
        s
    } else if s[0] == id {
        s.drop_first()
    } else {
        seq![s[0]] + remove_first(s.drop_first(), id)
    }
}

impl Tile {
    /// An empty tile at `position` of `kind`.
    pub fn new(position: Position, kind: TileKind) -> (t: Self)
        ensures
            t@ == (TileView {
                position,
                kind,
                flags: TILESTATE_NONE,
                ground: None,
                items: Seq::empty(),
                creature_ids: Seq::empty(),
                down: 0,
            }),
    {
        Tile {
            position,
            kind,
            flags: TILESTATE_NONE,
            ground: None,
            items: Vec::new(),
            creature_ids: Vec::new(),
            down_item_count: 0,
        }
    }

    /// The tile's position.
    pub fn get_position(&self) -> (p: Position)
        ensures
            p == self@.position,
    {
        self.position
    }

    /// Whether the tile has ground.
    pub fn has_ground(&self) -> (r: bool)
        ensures
            r == self@.ground is Some,
    {
        self.ground.is_some()
    }

    /// Whether any bit of `flag` is set.
    pub fn has_flag(&self, flag: u32) -> (r: bool)
        ensures
            r == (self@.flags & flag != 0),
    {
        self.flags & flag != 0
    }

    /// Sets the bits of `flag`.
    pub fn set_flag(&mut self, flag: u32)
        ensures
            final(self)@ == (TileView { flags: old(self)@.flags | flag, ..old(self)@ }),
    {
        self.flags = self.flags | flag;
    }

    /// The number of items on top of the creatures (see `top_item_count`).
    pub fn get_top_item_count(&self) -> (n: usize)
        ensures
            n == top_item_count(self@.items.len() as int, self@.down),
    {
        self.items.len().saturating_sub(self.down_item_count as usize)
    }

    /// The number of items under the creatures.
    pub fn get_down_item_count(&self) -> (n: usize)
        ensures
            n == self@.down,
    {
        self.down_item_count as usize
    }

    /// The last item, where there are items on top.
    pub fn get_top_top_item(&self) -> (r: Option<&MapItem>)
        ensures
            r == (if top_item_count(self@.items.len() as int, self@.down) == 0 {
                None
            } else {
                Some(&self@.items.last())
            }),
    {
        if self.get_top_item_count() == 0 {
            return None;
        }
        let n = self.items.len();
        Some(&self.items[n - 1])
    }

    /// The first item, where there are items underneath.
    pub fn get_top_down_item(&self) -> (r: Option<&MapItem>)
        ensures
            r == (if self@.down == 0 || self@.items.len() == 0 {
                None
            } else {
                Some(&self@.items[0])
            }),
    {
        if self.down_item_count == 0 {
            return None;
        }
        if self.items.len() == 0 {
            None
        } else {
            Some(&self.items[0])
        }
    }

    /// What kind of tile this is.
    pub(crate) fn get_kind(&self) -> (k: TileKind)
        ensures
            k == self@.kind,
    {
        self.kind
    }

    /// The number of the tile's items.
    pub(crate) fn item_count(&self) -> (n: usize)
        ensures
            n == self@.items.len(),
    {
        self.items.len()
    }

    /// The item at `index` among the tile's items, if there is one.
    pub(crate) fn item_at(&self, index: usize) -> (r: Option<&MapItem>)
        ensures
            r == (if index < self@.items.len() {
                Some(&self@.items[index as int])
            } else {
                None
            }),
    {
        if index < self.items.len() {
            Some(&self.items[index])
        } else {
            None
        }
    }

    /// The item a client means by stack position `stackpos`: 0 is the ground,
    /// then the items on top, then the items from the first on.
    pub fn get_use_item(&self, stackpos: u8) -> (r: Option<&MapItem>)
        requires
            self@.down <= self@.items.len(),
        ensures
            ({
                let len = self@.items.len() as int;
                let down = self@.down;
                let index = stackpos - 1;
                r == (if stackpos == 0 {
                    match self@.ground {
                        Some(g) => Some(&g),
                        None => None,
                    }
                } else if index < len - down {
                    Some(&self@.items[down + index])
                } else if index - (len - down) < len {
                    Some(&self@.items[index - (len - down)])
                } else {
                    None
                })
            }),
    {
        if stackpos == 0 {
            return match &self.ground {
                Some(g) => Some(g),
                None => None,
            };
        }
        let index = (stackpos - 1) as usize;
        let top_start = self.down_item_count as usize;
        let top_len = self.items.len() - top_start;
        if index < top_len {
            return Some(&self.items[top_start + index]);
        }
        let rest = index - top_len;
        if rest < self.items.len() {
            Some(&self.items[rest])
        } else {
            None
        }
    }

    /// Whether a creature may stand here: there is ground and nothing solid.
    pub fn is_walkable(&self) -> (r: bool)
        ensures
            r == (self@.ground is Some && self@.flags & TILESTATE_BLOCKSOLID == 0),
    {
        self.ground.is_some() && !self.has_flag(TILESTATE_BLOCKSOLID)
    }

    /// Whether a moved item is blocked here: no ground, or something solid.
    pub fn is_moveable_blocking(&self) -> (r: bool)
        ensures
            r == (self@.ground is None || self@.flags & TILESTATE_BLOCKSOLID != 0),
    {
        self.ground.is_none() || self.has_flag(TILESTATE_BLOCKSOLID)
    }

    /// A creature arrives: it goes first in the list.
    pub fn add_creature(&mut self, creature_id: CreatureId)
        ensures
            final(self)@ == (TileView {
                creature_ids: seq![creature_id] + old(self)@.creature_ids,
                ..old(self)@
            }),
    {
        self.creature_ids.insert(0, creature_id);
        assert(self.creature_ids@ =~= seq![creature_id] + old(self).creature_ids@);
    }

    /// A creature leaves: its first occurrence is taken out of the list.
    pub fn remove_creature(&mut self, creature_id: CreatureId)
        ensures
            final(self)@ == (TileView {
                creature_ids: remove_first(old(self)@.creature_ids, creature_id),
                ..old(self)@
            }),
    {
        let mut i: usize = 0;
        while i < self.creature_ids.len()
            invariant
                i <= self@.creature_ids.len(),
                *self == *old(self),
                forall|j: int| 0 <= j < i ==> self.creature_ids@[j] != creature_id,
            decreases self@.creature_ids.len() - i,
        {
            if self.creature_ids[i] == creature_id {
                proof {
                    lemma_remove_first_at(self.creature_ids@, creature_id, i as int);
                }
                self.creature_ids.remove(i);
                assert(self.creature_ids@ =~= old(self).creature_ids@.remove(i as int));
                return;
            }
            i = i + 1;
        }
        proof {
            lemma_remove_first_absent(self.creature_ids@, creature_id);
        }
    }

    /// The number of creatures here.
    pub fn get_creature_count(&self) -> (n: usize)
        ensures
            n == self@.creature_ids.len(),
    {
        self.creature_ids.len()
    }

    /// The creatures here, the last to arrive first.
    pub fn get_creatures(&self) -> (r: &[CreatureId])
        ensures
            r@ == self@.creature_ids,
    {
        self.creature_ids.as_slice()
    }

    /// The client's stack position of creature `creature_id`: after the ground
    /// and the items on top, counting the creatures from the last in the list;
    /// -1 when it is not here.
    pub fn get_client_index_of_creature(&self, creature_id: CreatureId) -> (r: i32)
        requires
            self@.items.len() + self@.creature_ids.len() < i32::MAX - 1,
        ensures
            r == (match last_index_of(self@.creature_ids, creature_id) {
                Some(j) => (if self@.ground.is_some() {
                    1int
                } else {
                    0int
                }) + top_item_count(self@.items.len() as int, self@.down) + (
                self@.creature_ids.len() - 1 - j),
                None => -1,
            }),
    {
        let mut n: i32 = if self.ground.is_some() {
            1
        } else {
            0
        };
        n = n + self.get_top_item_count() as i32;
        let ghost base = n as int;
        let len = self.creature_ids.len();
        let mut k: usize = len;
        assert(self.creature_ids@.take(len as int) =~= self.creature_ids@);
        while k > 0
            invariant
                k <= len == self@.creature_ids.len(),
                self@.items.len() + self@.creature_ids.len() < i32::MAX - 1,
                base == (if self@.ground.is_some() {
                    1int
                } else {
                    0int
                }) + top_item_count(self@.items.len() as int, self@.down),
                base <= self@.items.len() + 1,
                n == base + (len - k),
                last_index_of(self@.creature_ids, creature_id) == last_index_of(
                    self.creature_ids@.take(k as int),
                    creature_id,
                ),
            decreases k,
        {
            let cid = self.creature_ids[k - 1];
            proof {
                assert(self.creature_ids@.take(k as int).drop_last() =~= self.creature_ids@.take(
                    k - 1,
                ));
            }
            if cid == creature_id {
                assert(self.creature_ids@.take(k as int).last() == cid);
                return n;
            }
            n = n + 1;
            k = k - 1;
        }
        -1
    }

    /// The client's stack position where creatures start: after the ground
    /// and the items on top (the count taken as a byte, the sum saturating).
    pub fn get_creature_client_stackpos(&self) -> (r: u8)
        ensures
            r == (if self@.ground.is_some() {
                1u8
            } else {
                0u8
            }).saturating_add(top_item_count(self@.items.len() as int, self@.down) as u8),
    {
        let n: u8 = if self.ground.is_some() {
            1
        } else {
            0
        };
        n.saturating_add(self.get_top_item_count() as u8)
    }

    /// The index of the first item with `server_id`.
    pub fn find_item_index_by_server_id(&self, server_id: u16) -> (r: Option<usize>)
        ensures
            r matches Some(i) ==> first_item_with(self@.items, server_id) == Some(i as int) && i
                < self@.items.len(),
            r is None ==> first_item_with(self@.items, server_id) is None,
    {
        let mut i: usize = 0;
        assert(self.items@.skip(0) =~= self.items@);
        while i < self.items.len()
            invariant
                i <= self@.items.len(),
                first_item_with(self@.items, server_id) == match first_item_with(
                    self.items@.skip(i as int),
                    server_id,
                ) {
                    Some(j) => Some(j + i),
                    None => None,
                },
            decreases self@.items.len() - i,
        {
            proof {
                assert(self.items@.skip(i as int).drop_first() =~= self.items@.skip(i + 1));
            }
            if self.items[i].server_id == server_id {
                return Some(i);
            }
            i = i + 1;
        }
        None
    }

    /// The client's stack position of the item at `items_index` (see
    /// `client_stackpos`).
    pub fn item_client_stackpos(&self, items_index: usize) -> (r: u8)
        ensures
            r == client_stackpos(
                self@.ground is Some,
                top_item_count(self@.items.len() as int, self@.down),
                self@.down,
                items_index as int,
            ),
    {
        let ground: u8 = if self.ground.is_some() {
            1
        } else {
            0
        };
        let down = self.get_down_item_count();
        if items_index >= down {
            ground.saturating_add((items_index - down) as u8)
        } else {
            ground.saturating_add(self.get_top_item_count() as u8).saturating_add(items_index as u8)
        }
    }
}

proof fn lemma_remove_first_at(s: Seq<CreatureId>, id: CreatureId, i: int)
    requires
        0 <= i < s.len(),
        s[i] == id,
        forall|j: int| 0 <= j < i ==> s[j] != id,
    ensures
        remove_first(s, id) == s.remove(i),
    decreases s.len(),
{
    if i == 0 {
        assert(s.remove(0) =~= s.drop_first());
    } else {
        lemma_remove_first_at(s.drop_first(), id, i - 1);
        assert(seq![s[0]] + s.drop_first().remove(i - 1) =~= s.remove(i));
    }
}

proof fn lemma_remove_first_absent(s: Seq<CreatureId>, id: CreatureId)
    requires
        forall|j: int| 0 <= j < s.len() ==> s[j] != id,
    ensures
        remove_first(s, id) == s,
    decreases s.len(),
{
    if s.len() > 0 {
        lemma_remove_first_absent(s.drop_first(), id);
        assert(seq![s[0]] + s.drop_first() =~= s);
    }
}

} // verus!
