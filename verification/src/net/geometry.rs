//! What a player sees and where an item move points: view ranges, the
//! floors sent in a map description, neighbouring positions, and the
//! decoding of move endpoints.
use vstd::prelude::*;
use crate::map::Position;
use std::collections::HashSet;
use vstd::std_specs::iter::IteratorSpec;

verus! {

/// How far a player sees east and west of himself.
pub const MAX_VIEWPORT_X: i32 = 8;
/// How far a player sees north and south of himself.
pub const MAX_VIEWPORT_Y: i32 = 6;
/// The number of floors.
pub const MAP_MAX_LAYERS: i32 = 16;

/// Whether a viewer at `viewer` sees `target`: above ground only floors
/// above ground, underground only two floors up or down, and within the
/// view window shifted by the floor difference.
pub open spec fn sees(viewer: Position, target: Position) -> bool {
    let offsetz = viewer.z - target.z;
    &&& (viewer.z <= 7 ==> target.z <= 7)
    &&& (viewer.z > 7 ==> -2 <= offsetz <= 2)
    &&& viewer.x - MAX_VIEWPORT_X + offsetz <= target.x <= viewer.x + (MAX_VIEWPORT_X + 1) + offsetz
    &&& viewer.y - MAX_VIEWPORT_Y + offsetz <= target.y <= viewer.y + (MAX_VIEWPORT_Y + 1) + offsetz
}

/// Whether a viewer at `viewer_pos` sees `target` (see `sees`).
pub fn can_see_position(viewer_pos: Position, target: Position) -> (r: bool)
    ensures
        r == sees(viewer_pos, target),
{
    if viewer_pos.z <= 7 {
        if target.z > 7 {
            return false;
        }
    } else {
        let dz: i32 = viewer_pos.z as i32 - target.z as i32;
        if dz > 2 || dz < -2 {
            return false;
        }
    }
    let offsetz: i32 = viewer_pos.z as i32 - target.z as i32;
    let x = target.x as i32;
    let y = target.y as i32;
    let mx = viewer_pos.x as i32;
    let my = viewer_pos.y as i32;
    x >= mx - MAX_VIEWPORT_X + offsetz && x <= mx + (MAX_VIEWPORT_X + 1) + offsetz && y >= my
        - MAX_VIEWPORT_Y + offsetz && y <= my + (MAX_VIEWPORT_Y + 1) + offsetz
}

/// Whether two positions are neighbours or the same in x and y (the floor
/// is not compared).
pub fn is_adjacent(a: Position, b: Position) -> (r: bool)
    ensures
        r == (-1 <= a.x - b.x <= 1 && -1 <= a.y - b.y <= 1),
{
    let dx = if a.x >= b.x { a.x - b.x } else { b.x - a.x };
    let dy = if a.y >= b.y { a.y - b.y } else { b.y - a.y };
    dx <= 1 && dy <= 1
}

/// The map position of a wire position.
pub fn to_map_position(position: crate::net::message::Position) -> (p: Position)
    ensures
        p.x == position.x && p.y == position.y && p.z == position.z,
{
    Position { x: position.x, y: position.y, z: position.z }
}

/// The floors of a map description for a viewer on floor `z`, as first,
/// last and step: above ground from 7 up to 0; underground from two above
/// to two below, stopping at the last floor.
pub open spec fn floors_of(z: int) -> (int, int, int) {
    if z > 7 {
        (z - 2, if z + 2 < MAP_MAX_LAYERS - 1 { z + 2 } else { MAP_MAX_LAYERS - 1 }, 1)
    } else {
        (7, 0, -1)
    }
}

/// The first floor, last floor and step of a map description for a viewer
/// on floor `z` (see `floors_of`).
pub fn floor_range(z: i32) -> (r: (i32, i32, i32))
    requires
        z <= i32::MAX - 2,
    ensures
        (r.0 as int, r.1 as int, r.2 as int) == floors_of(z as int),
{
    if z > 7 {
        let startz = z - 2;
        let endz = if z + 2 < MAP_MAX_LAYERS - 1 { z + 2 } else { MAP_MAX_LAYERS - 1 };
        (startz, endz, 1)
    } else {
        (7, 0, -1)
    }
}

/// The floors from `startz` to `endz` inclusive, by `zstep` (1 or -1;
/// none for another step).
pub open spec fn floor_seq(startz: int, endz: int, zstep: int) -> Seq<i32>
    decreases (if zstep > 0 { endz - startz + 1 } else { startz - endz + 1 }),
{
    if (zstep > 0 && startz > endz) || (zstep < 0 && startz < endz) || (zstep != 1 && zstep != -1) {
        Seq::empty()
    } else {
        seq![startz as i32] + floor_seq(startz + zstep, endz, zstep)
    }
}

/// The floors of a map description, in order (see `floor_seq`); the step
/// is 1 or -1 and the start is on the near side of the end.
pub fn floor_iter(startz: i32, endz: i32, zstep: i32) -> (r: Vec<i32>)
    requires
        zstep == 1 || zstep == -1,
        zstep == 1 ==> startz <= endz + 1,
        zstep == -1 ==> startz + 1 >= endz,
        -100 <= startz <= 100,
        -100 <= endz <= 100,
    ensures
        r@ == floor_seq(startz as int, endz as int, zstep as int),
{
    let mut r: Vec<i32> = Vec::new();
    let mut nz = startz;
    let end_inclusive = endz + zstep;
    while nz != end_inclusive
        invariant
            zstep == 1 || zstep == -1,
            end_inclusive == endz + zstep,
            zstep == 1 ==> startz <= nz <= end_inclusive,
            zstep == -1 ==> end_inclusive <= nz <= startz,
            -100 <= startz <= 100,
            -100 <= endz <= 100,
            r@ + floor_seq(nz as int, endz as int, zstep as int) == floor_seq(startz as int, endz as int, zstep as int),
        decreases (if zstep > 0 { end_inclusive - nz } else { nz - end_inclusive }),
    {
        let ghost before = r@;
        r.push(nz);
        proof {
            assert(floor_seq(nz as int, endz as int, zstep as int) == seq![nz] + floor_seq(nz + zstep, endz as int, zstep as int));
            assert(before + (seq![nz] + floor_seq(nz + zstep, endz as int, zstep as int)) =~= r@ + floor_seq(nz + zstep, endz as int, zstep as int));
        }
        nz = nz + zstep;
    }
    proof {
        assert(floor_seq(nz as int, endz as int, zstep as int) =~= Seq::<i32>::empty());
        assert(r@ + Seq::<i32>::empty() =~= r@);
    }
    r
}

/// The position one step in direction number `dir` (0 north, 1 east, 2
/// south, 3 west, 4 south-west, 5 south-east, 6 north-west, 7 north-east;
/// others stay), wrapping at the edges of the coordinate range.
pub open spec fn next_position_of(dir: u8, pos: Position) -> Position {
    let (dx, dy) = if dir == 0 {
        (0int, -1int)
    } else if dir == 1 {
        (1, 0)
    } else if dir == 2 {
        (0, 1)
    } else if dir == 3 {
        (-1, 0)
    } else if dir == 4 {
        (-1, 1)
    } else if dir == 5 {
        (1, 1)
    } else if dir == 6 {
        (-1, -1)
    } else if dir == 7 {
        (1, -1)
    } else {
        (0, 0)
    };
    Position {
        x: ((pos.x + dx + 65536) % 65536) as u16,
        y: ((pos.y + dy + 65536) % 65536) as u16,
        z: pos.z,
    }
}

fn wrap_step(v: u16, d: i32) -> (r: u16)
    requires
        -1 <= d <= 1,
    ensures
        r == ((v + d + 65536) % 65536) as u16,
{
    if d < 0 {
        if v == 0 {
            65535
        } else {
            v - 1
        }
    } else if d > 0 {
        if v == 65535 {
            0
        } else {
            v + 1
        }
    } else {
        v
    }
}

/// The position one step in direction number `dir` (see
/// `next_position_of`).
pub fn next_position(dir: u8, pos: Position) -> (p: Position)
    ensures
        p == next_position_of(dir, pos),
{
    let (dx, dy): (i32, i32) = match dir {
        0 => (0, -1),
        1 => (1, 0),
        2 => (0, 1),
        3 => (-1, 0),
        4 => (-1, 1),
        5 => (1, 1),
        6 => (-1, -1),
        7 => (1, -1),
        _ => (0, 0),
    };
    Position { x: wrap_step(pos.x, dx), y: wrap_step(pos.y, dy), z: pos.z }
}

/// Where an item move starts or ends: a container slot, an inventory slot,
/// or a place on the ground.
#[derive(Debug, Clone, Copy, PartialEq, Eq, Structural)]
pub enum MoveEndpoint {
    Container { cid: u8, slot: u8 },
    Inventory { slot: usize },
    Ground { pos: Position, stackpos: u8 },
}

impl MoveEndpoint {
    /// Decodes the position of a move: x 0xFFFF marks a container (bit
    /// 0x40 of y set: container y & 0x0F, slot z) or an inventory slot (y);
    /// any other x is the ground.
    pub fn decode(pos: Position, stackpos: u8) -> (e: Self)
        ensures
            e == if pos.x == 0xFFFF {
                if pos.y & 0x40 != 0 {
                    MoveEndpoint::Container { cid: (pos.y & 0x0F) as u8, slot: pos.z }
                } else {
                    MoveEndpoint::Inventory { slot: pos.y as usize }
                }
            } else {
                MoveEndpoint::Ground { pos, stackpos }
            },
    {
        if pos.x == 0xFFFF {
            if (pos.y & 0x40) != 0 {
                MoveEndpoint::Container { cid: (pos.y & 0x0F) as u8, slot: pos.z }
            } else {
                MoveEndpoint::Inventory { slot: pos.y as usize }
            }
        } else {
            MoveEndpoint::Ground { pos, stackpos }
        }
    }
}

/// How many creatures a client keeps track of.
pub const MAX_KNOWN_CREATURES: usize = 1300;

/// Marks creature `id` as known to a client. Returns whether it was new,
/// and, when the client then knows more than it keeps track of, some other
/// creature it forgets (0 when none is forgotten).
pub fn check_creature_as_known(known: &mut HashSet<u32>, id: u32) -> (r: (bool, u32))
    ensures
        r.0 == !old(known)@.contains(id),
        !r.0 ==> final(known)@ == old(known)@ && r.1 == 0,
        r.0 && old(known)@.insert(id).len() > MAX_KNOWN_CREATURES ==> r.1 != id && old(known)@.contains(r.1)
            && final(known)@ == old(known)@.insert(id).remove(r.1),
        r.0 && old(known)@.insert(id).len() <= MAX_KNOWN_CREATURES ==> final(known)@ == old(known)@.insert(id)
            && r.1 == 0,
{
    if known.insert(id) {
        if known.len() > MAX_KNOWN_CREATURES {
            let ghost m = known@;
            let ghost all = vstd::std_specs::hash::spec_hash_keys_iter(&*known).remaining();
            let mut found: Option<u32> = None;
            for k in it: known.iter()
                invariant
                    m == known@,
                    it.seq() == all,
                    found matches Some(f) ==> f != id && m.contains(f),
                    found is None ==> forall|j: int| 0 <= j < it.index() ==> *(#[trigger] it.seq()[j]) == id,
            {
                if found.is_none() && *k != id {
                    found = Some(*k);
                }
            }
            match found {
                Some(remove_id) => {
                    known.remove(&remove_id);
                    return (true, remove_id);
                },
                None => {
                    proof {
                        assert(all.unref().to_set() == m);
                        assert forall|x: u32| m.contains(x) implies x == id by {
                            assert(all.unref().to_set().contains(x));
                            let j = choose|j: int| 0 <= j < all.unref().len() && all.unref()[j] == x;
                            assert(*all[j] == x);
                        }
                        assert(m =~= set![id]);
                        assert(m.len() == 1);
                    }
                },
            }
        }
        (true, 0)
    } else {
        (false, 0)
    }
}

} // verus!

