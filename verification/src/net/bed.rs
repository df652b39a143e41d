//! Using a bed: who may lie down in a house bed, and who may wake the one
//! sleeping in it.
use vstd::prelude::*;
use crate::map::Position;
use crate::map::grid::{GameMap, MapView, tile_at};
use crate::map::houses::{AccessHouseLevel, House, holds_at, holds_key, house_access_level};
use crate::map::tile::{TILESTATE_PROTECTIONZONE, TileKind, first_item_with};

verus! {

/// What the rules on beds look at besides the map and the player's name.
#[derive(Debug, Clone, Copy, PartialEq, Eq)]
pub struct BedFacts {
    /// The player's character id.
    pub guid: u32,
    pub account_id: u32,
    pub premium: bool,
    /// Whether the player's group may edit houses.
    pub can_edit_houses: bool,
    /// Whether houses belong to accounts rather than characters.
    pub owned_by_account: bool,
    /// The item the bed turns into when nobody sleeps in it (0 for none).
    pub transform_to_free: u16,
}

/// Why a bed may not be used.
#[derive(Debug, Clone, Copy, PartialEq, Eq)]
pub enum BedRefusal {
    /// The bed is in no house.
    NoHouse,
    /// The player has no premium account.
    NeedPremium,
    /// The bed is outside a protection zone, or somebody else sleeps in it.
    CannotUse,
}

impl BedRefusal {
    /// The status message for the refusal.
    pub fn text(&self) -> (r: &'static str)
        ensures
            r@ == match *self {
                BedRefusal::NoHouse => "You can not use this bed."@,
                BedRefusal::NeedPremium => "You need a premium account."@,
                BedRefusal::CannotUse => "You cannot use this object."@,
            },
    {
        match self {
            BedRefusal::NoHouse => "You can not use this bed.",
            BedRefusal::NeedPremium => "You need a premium account.",
            BedRefusal::CannotUse => "You cannot use this object.",
        }
    }
}

/// What using a bed does.
#[derive(Debug, Clone, Copy, PartialEq, Eq)]
pub enum BedUse {
    /// There is no tile: nothing happens.
    Ignore,
    /// The player is told why not.
    Refused { why: BedRefusal },
    /// The sleeper is woken; the bed is freed where `free_bed` holds.
    WakeUp { free_bed: bool },
    /// The player lies down.
    Sleep,
}

/// The house of the tile at `pos`, if it is a house tile.
pub open spec fn house_id_at(v: MapView, pos: Position) -> Option<u32> {
    match tile_at(v, pos) {
        Some(t) => match t.kind {
            TileKind::House { house_id } => Some(house_id),
            _ => None,
        },
        None => None,
    }
}

/// The character sleeping in the first item `server_id` on the tile at
/// `pos`, 0 for nobody.
pub open spec fn sleeper_at(v: MapView, pos: Position, server_id: u16) -> u32 {
    match tile_at(v, pos) {
        Some(t) => match first_item_with(t.items, server_id) {
            Some(i) => t.items[i].sleeper_guid,
            None => 0,
        },
        None => 0,
    }
}

/// Whether the player has owner access to house `hid` (see
/// `house_access_level`).
pub open spec fn owner_access(hs: Seq<(u32, House)>, hid: u32, f: BedFacts, name: Seq<char>) -> bool {
    exists|i: int|
        holds_at(hs, hid, i) && house_access_level(
            #[trigger] hs[i].1,
            f.guid,
            f.account_id,
            f.can_edit_houses,
            f.owned_by_account,
            name,
            Seq::empty(),
            Seq::empty(),
        ) == AccessHouseLevel::Owner
}

/// Whether the owner of house `hid` is `guid` (a missing house has owner 0).
pub open spec fn owned_by(hs: Seq<(u32, House)>, hid: u32, guid: u32) -> bool {
    if holds_key(hs, hid) {
        exists|i: int| holds_at(hs, hid, i) && #[trigger] hs[i].1.owner == guid
    } else {
        guid == 0
    }
}

/// What using bed `server_id` at `pos` does: only in a house, with a
/// premium account and in a protection zone; an occupied bed only by a
/// player with owner access, who wakes the sleeper (freeing the bed where
/// the bed has a free form and he owns the house); else the player lies
/// down.
pub open spec fn bed_use_of(
    v: MapView,
    hs: Seq<(u32, House)>,
    pos: Position,
    server_id: u16,
    f: BedFacts,
    name: Seq<char>,
) -> BedUse {
    match tile_at(v, pos) {
        None => BedUse::Ignore,
        Some(t) => {
            let sleeper = sleeper_at(v, pos, server_id);
            match house_id_at(v, pos) {
                None => BedUse::Refused { why: BedRefusal::NoHouse },
                Some(hid) => if !f.premium {
                    BedUse::Refused { why: BedRefusal::NeedPremium }
                } else if t.flags & TILESTATE_PROTECTIONZONE == 0 || (sleeper != 0 && !owner_access(
                    hs,
                    hid,
                    f,
                    name,
                )) {
                    BedUse::Refused { why: BedRefusal::CannotUse }
                } else if sleeper != 0 {
                    BedUse::WakeUp { free_bed: f.transform_to_free != 0 && owned_by(hs, hid, f.guid) }
                } else {
                    BedUse::Sleep
                },
            }
        },
    }
}

/// What using bed `server_id` at `pos` does (see `bed_use_of`).
pub fn decide_bed_use(map: &GameMap, pos: Position, server_id: u16, f: &BedFacts, name: &str) -> (r: BedUse)
    requires
        map.house_registry().wf(),
    ensures
        r == bed_use_of(map@, map.house_registry()@, pos, server_id, *f, name@),
{
    let tile = match map.get_tile(pos) {
        Some(t) => t,
        None => {
            return BedUse::Ignore;
        },
    };
    let house_id = match tile.get_kind() {
        TileKind::House { house_id } => house_id,
        _ => {
            return BedUse::Refused { why: BedRefusal::NoHouse };
        },
    };
    let is_pz = tile.has_flag(TILESTATE_PROTECTIONZONE);
    let sleeper: u32 = match tile.find_item_index_by_server_id(server_id) {
        Some(i) => match tile.item_at(i) {
            Some(item) => item.sleeper_guid,
            None => 0,
        },
        None => 0,
    };
    let houses = map.get_houses();
    let (owner, is_owner) = match houses.get_house(house_id) {
        Some(h) => {
            let level = h.access_level_for(
                f.guid,
                f.account_id,
                f.can_edit_houses,
                f.owned_by_account,
                name,
                "",
                "",
            );
            proof {
                let j = choose|j: int| holds_at(houses@, house_id, j) && *h == houses@[j].1;
                assert forall|i: int| holds_at(houses@, house_id, i) implies i == j by {
                    crate::map::houses::lemma_key_unique(houses@, house_id, i, j);
                }
                reveal_strlit("");
                assert(""@ =~= Seq::<char>::empty());
            }
            (h.get_owner(), level == AccessHouseLevel::Owner)
        },
        None => (0, false),
    };
    if !f.premium {
        return BedUse::Refused { why: BedRefusal::NeedPremium };
    }
    if !is_pz || (sleeper != 0 && !is_owner) {
        return BedUse::Refused { why: BedRefusal::CannotUse };
    }
    if sleeper != 0 {
        return BedUse::WakeUp { free_bed: f.transform_to_free != 0 && owner == f.guid };
    }
    BedUse::Sleep
}

} // verus!
