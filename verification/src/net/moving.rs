//! The rules on moving things a player drags: where a move goes, which
//! thing on a tile the player picked, and whether an item or a creature may
//! be moved where the player wants it.
use vstd::prelude::*;
use crate::map::Position;
use crate::map::grid::{GameMap, MapView, tile_at, tile_has};
use crate::map::tile::{
    CreatureId, TILESTATE_BLOCKPATH, TILESTATE_BLOCKSOLID, TILESTATE_NOLOGOUT, TILESTATE_NOPVPZONE,
    TILESTATE_PROTECTIONZONE, top_item_count,
};

verus! {

/// What a player is told when a move is refused.
#[derive(Debug, Clone, Copy, PartialEq, Eq)]
pub enum MoveRefusal {
    GoDownstairs,
    GoUpstairs,
    OutOfReach,
    CannotMove,
    NoWay,
    OutOfRange,
    NotPossible,
    NotEnoughRoom,
}

impl MoveRefusal {
    /// The status message for the refusal.
    pub fn text(&self) -> (r: &'static str)
        ensures
            r@ == match *self {
                MoveRefusal::GoDownstairs => "First go downstairs."@,
                MoveRefusal::GoUpstairs => "First go upstairs."@,
                MoveRefusal::OutOfReach => "Destination is out of reach."@,
                MoveRefusal::CannotMove => "You cannot move this object."@,
                MoveRefusal::NoWay => "There is no way."@,
                MoveRefusal::OutOfRange => "Destination is out of range."@,
                MoveRefusal::NotPossible => "Sorry, not possible."@,
                MoveRefusal::NotEnoughRoom => "There is not enough room."@,
            },
    {
        match self {
            MoveRefusal::GoDownstairs => "First go downstairs.",
            MoveRefusal::GoUpstairs => "First go upstairs.",
            MoveRefusal::OutOfReach => "Destination is out of reach.",
            MoveRefusal::CannotMove => "You cannot move this object.",
            MoveRefusal::NoWay => "There is no way.",
            MoveRefusal::OutOfRange => "Destination is out of range.",
            MoveRefusal::NotPossible => "Sorry, not possible.",
            MoveRefusal::NotEnoughRoom => "There is not enough room.",
        }
    }
}

/// Where a dragged thing comes from and goes to.
#[derive(Debug, Clone, Copy, PartialEq, Eq)]
pub enum ThrowRoute {
    /// Nothing is moved.
    Ignore,
    /// An open container is at one end.
    ContainerMove,
    InventoryToInventory,
    InventoryToGround,
    GroundToInventory,
    MapToMap,
}

/// Whether `p` is no map square but a place in an open container (x is
/// 0xFFFF and y has bit 0x40).
pub open spec fn in_container(p: Position) -> bool {
    p.x == 0xFFFF && p.y & 0x40 != 0
}

/// Where a drag from `from` to `to` goes: nowhere for no player or the same
/// place; a container move where either end is in an open container; else
/// by whether each end is an inventory slot (x is 0xFFFF) or a map square.
pub open spec fn route_of(creature_id: CreatureId, from: Position, to: Position) -> ThrowRoute {
    if creature_id == 0 || from == to {
        ThrowRoute::Ignore
    } else if in_container(from) || in_container(to) {
        ThrowRoute::ContainerMove
    } else if from.x == 0xFFFF && to.x == 0xFFFF {
        ThrowRoute::InventoryToInventory
    } else if from.x == 0xFFFF {
        ThrowRoute::InventoryToGround
    } else if to.x == 0xFFFF {
        ThrowRoute::GroundToInventory
    } else {
        ThrowRoute::MapToMap
    }
}

/// Where a drag from `from` to `to` goes (see `route_of`).
pub fn throw_route(creature_id: CreatureId, from: Position, to: Position) -> (r: ThrowRoute)
    ensures
        r == route_of(creature_id, from, to),
{
    if creature_id == 0 || (from.x == to.x && from.y == to.y && from.z == to.z) {
        return ThrowRoute::Ignore;
    }
    let from_in_container = from.x == 0xFFFF && (from.y & 0x40) != 0;
    let to_in_container = to.x == 0xFFFF && (to.y & 0x40) != 0;
    if from_in_container || to_in_container {
        ThrowRoute::ContainerMove
    } else if from.x == 0xFFFF && to.x == 0xFFFF {
        ThrowRoute::InventoryToInventory
    } else if from.x == 0xFFFF {
        ThrowRoute::InventoryToGround
    } else if to.x == 0xFFFF {
        ThrowRoute::GroundToInventory
    } else {
        ThrowRoute::MapToMap
    }
}

/// The distance between two coordinates.
pub open spec fn dist(a: int, b: int) -> int {
    if a >= b {
        a - b
    } else {
        b - a
    }
}

fn distance16(a: u16, b: u16) -> (r: u16)
    ensures
        r == dist(a as int, b as int),
{
    if a >= b {
        a - b
    } else {
        b - a
    }
}

/// The thing a player picked on a tile.
#[derive(Debug, Clone, Copy, PartialEq, Eq)]
pub enum PickedThing {
    /// Nothing that can be dragged: no tile, the ground, or no thing there.
    Nothing,
    /// The creature `id`.
    Creature { id: CreatureId },
    /// The item at `index` among the tile's items.
    Item { index: usize },
}

/// What stack position `s` picks on the tile at `p`, in the client's order:
/// the ground, the items on top, the creatures from the last to arrive,
/// then the items underneath.
pub open spec fn picked_at(v: MapView, p: Position, s: int) -> PickedThing {
    match tile_at(v, p) {
        None => PickedThing::Nothing,
        Some(t) => {
            let g: int = if t.ground is Some {
                1
            } else {
                0
            };
            let len = t.items.len() as int;
            let top = top_item_count(len, t.down);
            let ncre = t.creature_ids.len() as int;
            if g + top <= s < g + top + ncre {
                PickedThing::Creature { id: t.creature_ids[ncre - 1 - (s - (g + top))] }
            } else if g <= s < g + top {
                if t.down + (s - g) < len {
                    PickedThing::Item { index: (t.down + (s - g)) as usize }
                } else {
                    PickedThing::Nothing
                }
            } else if s >= g + top + ncre && s - (g + top + ncre) < t.down && s - (g + top
                + ncre) < len {
                PickedThing::Item { index: (s - (g + top + ncre)) as usize }
            } else {
                PickedThing::Nothing
            }
        },
    }
}

/// What stack position `stackpos` picks on the tile at `pos` (see
/// `picked_at`).
pub fn picked_thing(map: &GameMap, pos: Position, stackpos: u8) -> (r: PickedThing)
    ensures
        r == picked_at(map@, pos, stackpos as int),
{
    let tile = match map.get_tile(pos) {
        Some(t) => t,
        None => {
            return PickedThing::Nothing;
        },
    };
    let g: usize = if tile.has_ground() {
        1
    } else {
        0
    };
    let down = tile.get_down_item_count();
    let top = tile.get_top_item_count();
    let creatures = tile.get_creatures();
    let ncre = creatures.len();
    let len = tile.item_count();
    let s = stackpos as usize;
    if s < g {
        return PickedThing::Nothing;
    }
    let r = s - g;
    if r < top {
        if r < len && down < len - r {
            return PickedThing::Item { index: down + r };
        }
        return PickedThing::Nothing;
    }
    let r2 = r - top;
    if r2 < ncre {
        return PickedThing::Creature { id: creatures[ncre - 1 - r2] };
    }
    let di = r2 - ncre;
    if di < down && di < len {
        return PickedThing::Item { index: di };
    }
    PickedThing::Nothing
}

/// The first checks on dragging a thing from one map square to another.
#[derive(Debug, Clone, Copy, PartialEq, Eq)]
pub enum MapThrowCheck {
    /// The player is told something and nothing is moved.
    Refused { why: MoveRefusal },
    /// The player is too far from the thing: nothing happens.
    Ignore,
    /// The thing may be looked at further.
    Proceed,
}

/// The first checks on a drag from `from` to `to` by a player at `player`:
/// he must stand on the thing's floor and next to it, and the destination
/// must be on that floor within seven columns and five rows of it.
pub open spec fn map_throw_check_of(player: Position, from: Position, to: Position) -> MapThrowCheck {
    if player.z != from.z {
        MapThrowCheck::Refused {
            why: if from.z > player.z {
                MoveRefusal::GoDownstairs
            } else {
                MoveRefusal::GoUpstairs
            },
        }
    } else if dist(player.x as int, from.x as int) > 1 || dist(player.y as int, from.y as int) > 1 {
        MapThrowCheck::Ignore
    } else if dist(from.x as int, to.x as int) > 7 || dist(from.y as int, to.y as int) > 5 || from.z
        != to.z {
        MapThrowCheck::Refused { why: MoveRefusal::OutOfReach }
    } else {
        MapThrowCheck::Proceed
    }
}

/// The first checks on a drag between map squares (see
/// `map_throw_check_of`).
pub fn map_throw_check(player: Position, from: Position, to: Position) -> (r: MapThrowCheck)
    ensures
        r == map_throw_check_of(player, from, to),
{
    if player.z != from.z {
        let why = if from.z > player.z {
            MoveRefusal::GoDownstairs
        } else {
            MoveRefusal::GoUpstairs
        };
        return MapThrowCheck::Refused { why };
    }
    if distance16(player.x, from.x) > 1 || distance16(player.y, from.y) > 1 {
        return MapThrowCheck::Ignore;
    }
    if distance16(from.x, to.x) > 7 || distance16(from.y, to.y) > 5 || from.z != to.z {
        return MapThrowCheck::Refused { why: MoveRefusal::OutOfReach };
    }
    MapThrowCheck::Proceed
}

/// The check on where a dragged item lands: nothing happens where there
/// is no tile, the player is told that there is no way where it has no
/// ground.
pub open spec fn throw_target_check_of(v: MapView, to: Position) -> MapThrowCheck {
    match tile_at(v, to) {
        None => MapThrowCheck::Ignore,
        Some(t) => if t.ground is None {
            MapThrowCheck::Refused { why: MoveRefusal::NoWay }
        } else {
            MapThrowCheck::Proceed
        },
    }
}

/// The check on where a dragged item lands (see `throw_target_check_of`).
pub fn throw_target_check(map: &GameMap, to: Position) -> (r: MapThrowCheck)
    ensures
        r == throw_target_check_of(map@, to),
{
    match map.get_tile(to) {
        None => MapThrowCheck::Ignore,
        Some(t) => if !t.has_ground() {
            MapThrowCheck::Refused { why: MoveRefusal::NoWay }
        } else {
            MapThrowCheck::Proceed
        },
    }
}

/// What the rules on pushing a creature look at besides the map.
#[derive(Debug, Clone, Copy, PartialEq, Eq)]
pub struct PushFacts {
    pub player_id: CreatureId,
    pub player_pos: Position,
    /// Whether the player's group may push every creature.
    pub can_push_all: bool,
    pub pushed_id: CreatureId,
    pub pushed_pos: Position,
    /// Whether the pushed creature may not be moved.
    pub movement_blocked: bool,
    /// Whether the pushed creature lets itself be pushed.
    pub pushable: bool,
    /// Whether the pushed creature is invisible in ghost mode.
    pub in_ghost_mode: bool,
    /// Whether a creature not in ghost mode stands on the destination.
    pub destination_occupied: bool,
}

/// Whether a push of a creature to `to` is allowed, and if not, what the
/// player is told: the creature must be movable, pushable (or the player
/// may push all), not in ghost mode, next to the player on his floor, and
/// `to` next to the creature on its floor with a tile; a creature other
/// than the player may not be pushed onto a path-blocking tile, out of a
/// protection or no-PvP zone, or onto a visible creature; and the
/// destination must have ground and nothing solid.
pub open spec fn push_refusal_of(v: MapView, f: PushFacts, to: Position) -> Option<MoveRefusal> {
    let c = f.pushed_pos;
    let p = f.player_pos;
    if f.movement_blocked || (!f.pushable && !f.can_push_all) || f.in_ghost_mode {
        Some(MoveRefusal::CannotMove)
    } else if dist(c.x as int, p.x as int) > 1 || dist(c.y as int, p.y as int) > 1 || c.z != p.z {
        Some(MoveRefusal::NoWay)
    } else if dist(c.x as int, to.x as int) > 1 || dist(c.y as int, to.y as int) > 1 || c.z != to.z {
        Some(MoveRefusal::OutOfRange)
    } else {
        match tile_at(v, to) {
            None => Some(MoveRefusal::NotPossible),
            Some(t) => {
                let other = f.player_id != f.pushed_id;
                let leaves_zone = (tile_has(v, c, TILESTATE_PROTECTIONZONE) && t.flags
                    & TILESTATE_PROTECTIONZONE == 0) || (tile_has(v, c, TILESTATE_NOPVPZONE) && t.flags
                    & TILESTATE_NOPVPZONE == 0);
                let no_floor = match t.ground {
                    Some(_) => t.flags & TILESTATE_BLOCKSOLID != 0,
                    None => true,
                };
                if other && t.flags & TILESTATE_BLOCKPATH != 0 {
                    Some(MoveRefusal::NotEnoughRoom)
                } else if other && leaves_zone {
                    Some(MoveRefusal::NotPossible)
                } else if other && f.destination_occupied {
                    Some(MoveRefusal::NotEnoughRoom)
                } else if no_floor {
                    Some(MoveRefusal::NotEnoughRoom)
                } else {
                    None
                }
            },
        }
    }
}

/// Whether a push of a creature to `to` is refused, and why (see
/// `push_refusal_of`); `None` lets the creature move.
pub fn push_refusal(map: &GameMap, f: &PushFacts, to: Position) -> (r: Option<MoveRefusal>)
    ensures
        r == push_refusal_of(map@, *f, to),
{
    let c = f.pushed_pos;
    let p = f.player_pos;
    if f.movement_blocked || (!f.pushable && !f.can_push_all) || f.in_ghost_mode {
        return Some(MoveRefusal::CannotMove);
    }
    if distance16(c.x, p.x) > 1 || distance16(c.y, p.y) > 1 || c.z != p.z {
        return Some(MoveRefusal::NoWay);
    }
    if distance16(c.x, to.x) > 1 || distance16(c.y, to.y) > 1 || c.z != to.z {
        return Some(MoveRefusal::OutOfRange);
    }
    let to_tile = match map.get_tile(to) {
        Some(t) => t,
        None => {
            return Some(MoveRefusal::NotPossible);
        },
    };
    if f.player_id != f.pushed_id {
        if to_tile.has_flag(TILESTATE_BLOCKPATH) {
            return Some(MoveRefusal::NotEnoughRoom);
        }
        let from_pz = map.has_flag_at(c, TILESTATE_PROTECTIONZONE);
        let from_nopvp = map.has_flag_at(c, TILESTATE_NOPVPZONE);
        let to_pz = to_tile.has_flag(TILESTATE_PROTECTIONZONE);
        let to_nopvp = to_tile.has_flag(TILESTATE_NOPVPZONE);
        if (from_pz && !to_pz) || (from_nopvp && !to_nopvp) {
            return Some(MoveRefusal::NotPossible);
        }
        if f.destination_occupied {
            return Some(MoveRefusal::NotEnoughRoom);
        }
    }
    if !to_tile.has_ground() || to_tile.has_flag(TILESTATE_BLOCKSOLID) {
        return Some(MoveRefusal::NotEnoughRoom);
    }
    None
}

/// Whether a player may step onto `to`, and if not, what he is told: not
/// where there is no tile or no ground, nor where something solid stands.
pub open spec fn walk_refusal_of(v: MapView, to: Position) -> Option<MoveRefusal> {
    match tile_at(v, to) {
        None => Some(MoveRefusal::NotPossible),
        Some(t) => match t.ground {
            None => Some(MoveRefusal::NotPossible),
            Some(_) => if t.flags & TILESTATE_BLOCKSOLID != 0 {
                Some(MoveRefusal::NotEnoughRoom)
            } else {
                None
            },
        },
    }
}

/// Whether a step onto `to` is refused, and why (see `walk_refusal_of`).
pub fn walk_refusal(map: &GameMap, to: Position) -> (r: Option<MoveRefusal>)
    ensures
        r == walk_refusal_of(map@, to),
{
    match map.get_tile(to) {
        None => Some(MoveRefusal::NotPossible),
        Some(t) => if !t.has_ground() {
            Some(MoveRefusal::NotPossible)
        } else if t.has_flag(TILESTATE_BLOCKSOLID) {
            Some(MoveRefusal::NotEnoughRoom)
        } else {
            None
        },
    }
}

/// Whether a player who stepped onto `to` stops attacking: he was
/// attacking, `to` is in a protection zone, and his group does not ignore
/// protection zones.
pub fn walk_stops_attack(map: &GameMap, to: Position, attacking: bool, ignore_protection_zone: bool) -> (r:
    bool)
    ensures
        r == (attacking && !ignore_protection_zone && tile_has(map@, to, TILESTATE_PROTECTIONZONE)),
{
    map.has_flag_at(to, TILESTATE_PROTECTIONZONE) && attacking && !ignore_protection_zone
}

/// Why a player may not log out where he stands, if he may not.
#[derive(Debug, Clone, Copy, PartialEq, Eq)]
pub enum LogoutRefusal {
    /// The tile forbids logging out.
    NoLogoutZone,
    /// He fought a moment ago outside a protection zone.
    InFight,
}

impl LogoutRefusal {
    /// The status message for the refusal.
    pub fn text(&self) -> (r: &'static str)
        ensures
            r@ == match *self {
                LogoutRefusal::NoLogoutZone => "You can not logout here."@,
                LogoutRefusal::InFight => "You may not logout during or immediately after a fight!"@,
            },
    {
        match self {
            LogoutRefusal::NoLogoutZone => "You can not logout here.",
            LogoutRefusal::InFight => "You may not logout during or immediately after a fight!",
        }
    }
}

/// Why a player at `pos` may not log out, if he may not: an access player
/// always may; on a tile that forbids it nobody else may; outside a
/// protection zone not with the in-fight condition. No tile, no refusal.
pub open spec fn logout_refusal_of(v: MapView, pos: Position, is_access: bool, in_fight: bool) -> Option<
    LogoutRefusal,
> {
    if is_access {
        None
    } else {
        match tile_at(v, pos) {
            None => None,
            Some(t) => if t.flags & TILESTATE_NOLOGOUT != 0 {
                Some(LogoutRefusal::NoLogoutZone)
            } else if t.flags & TILESTATE_PROTECTIONZONE == 0 && in_fight {
                Some(LogoutRefusal::InFight)
            } else {
                None
            },
        }
    }
}

/// Why a player at `pos` may not log out (see `logout_refusal_of`).
pub fn logout_refusal(map: &GameMap, pos: Position, is_access: bool, in_fight: bool) -> (r: Option<
    LogoutRefusal,
>)
    ensures
        r == logout_refusal_of(map@, pos, is_access, in_fight),
{
    if is_access {
        return None;
    }
    match map.get_tile(pos) {
        None => None,
        Some(t) => if t.has_flag(TILESTATE_NOLOGOUT) {
            Some(LogoutRefusal::NoLogoutZone)
        } else if !t.has_flag(TILESTATE_PROTECTIONZONE) && in_fight {
            Some(LogoutRefusal::InFight)
        } else {
            None
        },
    }
}

} // verus!
