//! What a creature reaches on the map: the square a step leads to, whether
//! a square takes a teleport, and whether a depot box stands next to it.
use vstd::prelude::*;
use crate::map::{direction_delta, Direction, Position};
use crate::map::grid::{floor_change_destination, tile_at, tile_has, GameMap};
use crate::map::tile::{TILESTATE_BLOCKSOLID, TILESTATE_DEPOT, TILESTATE_PROTECTIONZONE};

verus! {

/// `v` wrapped into the coordinate range.
pub open spec fn wrap16(v: int) -> u16 {
    (v % 65536) as u16
}

/// The square one step from `p` in direction `d`, wrapping at the map's
/// edges.
pub open spec fn wrapped_step(p: Position, d: Direction) -> Position {
    Position {
        x: wrap16(p.x + direction_delta(d).0),
        y: wrap16(p.y + direction_delta(d).1),
        z: p.z,
    }
}

fn wrap_add(v: u16, d: i32) -> (r: u16)
    requires
        -1 <= d <= 1,
    ensures
        r == wrap16(v + d),
{
    if d < 0 {
        v.wrapping_sub(1)
    } else if d > 0 {
        v.wrapping_add(1)
    } else {
        v
    }
}

/// Where a step from `pos` in direction `dir` leads: the stepped square,
/// resolved through its floor change (see `floor_change_destination`).
pub fn step_position(map: &GameMap, pos: Position, dir: Direction) -> (r: Option<Position>)
    ensures
        r == floor_change_destination(map@, wrapped_step(pos, dir)),
{
    let (dx, dy): (i32, i32) = match dir {
        Direction::North => (0, -1),
        Direction::South => (0, 1),
        Direction::East => (1, 0),
        Direction::West => (-1, 0),
        Direction::NorthEast => (1, -1),
        Direction::SouthEast => (1, 1),
        Direction::SouthWest => (-1, 1),
        Direction::NorthWest => (-1, -1),
    };
    let stepped = Position { x: wrap_add(pos.x, dx), y: wrap_add(pos.y, dy), z: pos.z };
    map.resolve_floor_change_destination(stepped)
}

/// Whether a creature may be teleported onto `position`: there is a tile
/// with ground and nothing solid, and it is no protection zone for a
/// creature that may not enter one.
pub open spec fn teleport_allowed(v: crate::map::grid::MapView, position: Position, is_pz_locked: bool) -> bool {
    match tile_at(v, position) {
        None => false,
        Some(t) => t.ground is Some && t.flags & TILESTATE_BLOCKSOLID == 0 && !(is_pz_locked && t.flags
            & TILESTATE_PROTECTIONZONE != 0),
    }
}

/// Whether a creature may be teleported onto `position` (see
/// `teleport_allowed`).
pub fn can_teleport_to(map: &GameMap, position: Position, is_pz_locked: bool) -> (r: bool)
    ensures
        r == teleport_allowed(map@, position, is_pz_locked),
{
    let tile = match map.get_tile(position) {
        Some(t) => t,
        None => {
            return false;
        },
    };
    if !tile.has_ground() || tile.has_flag(TILESTATE_BLOCKSOLID) {
        return false;
    }
    if is_pz_locked && tile.has_flag(TILESTATE_PROTECTIONZONE) {
        return false;
    }
    true
}

/// Whether a depot box stands on `pos` or one of the eight squares around
/// it (wrapping at the map's edges).
pub open spec fn depot_nearby(v: crate::map::grid::MapView, pos: Position) -> bool {
    exists|cx: int, cy: int|
        -1 <= cx <= 1 && -1 <= cy <= 1 && #[trigger] tile_has(
            v,
            Position { x: wrap16(pos.x + cx), y: wrap16(pos.y + cy), z: pos.z },
            TILESTATE_DEPOT,
        )
}

/// Whether a player standing at `pos` is next to a depot box (see
/// `depot_nearby`).
pub fn player_is_near_depot_box(map: &GameMap, pos: Position) -> (r: bool)
    ensures
        r == depot_nearby(map@, pos),
{
    let mut cx: i32 = -1;
    while cx <= 1
        invariant
            -1 <= cx <= 2,
            forall|a: int, b: int|
                -1 <= a < cx && -1 <= b <= 1 ==> !#[trigger] tile_has(
                    map@,
                    Position { x: wrap16(pos.x + a), y: wrap16(pos.y + b), z: pos.z },
                    TILESTATE_DEPOT,
                ),
        decreases 2 - cx,
    {
        let mut cy: i32 = -1;
        while cy <= 1
            invariant
                -1 <= cx <= 1,
                -1 <= cy <= 2,
                forall|a: int, b: int|
                    (-1 <= a < cx && -1 <= b <= 1) || (a == cx && -1 <= b < cy) ==> !#[trigger] tile_has(
                        map@,
                        Position { x: wrap16(pos.x + a), y: wrap16(pos.y + b), z: pos.z },
                        TILESTATE_DEPOT,
                    ),
            decreases 2 - cy,
        {
            let p = Position { x: wrap_add(pos.x, cx), y: wrap_add(pos.y, cy), z: pos.z };
            let depot = match map.get_tile(p) {
                Some(t) => t.has_flag(TILESTATE_DEPOT),
                None => false,
            };
            if depot {
                assert(tile_has(
                    map@,
                    Position { x: wrap16(pos.x + cx), y: wrap16(pos.y + cy), z: pos.z },
                    TILESTATE_DEPOT,
                ));
                return true;
            }
            cy = cy + 1;
        }
        cx = cx + 1;
    }
    false
}

} // verus!
