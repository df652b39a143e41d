//! Map geometry: positions, directions, towns, and the houses built on the map.
use vstd::prelude::*;

pub mod houses;
pub mod grid;
pub mod item_attrs;
pub mod otbm;
pub mod path;
pub mod rent;
pub mod serialize;
pub mod reach;
pub mod tile;

verus! {

/// A tile position: x and y on a floor, z the floor.
#[derive(Debug, Clone, Copy, PartialEq, Eq, Structural, Hash, Default)]
pub struct Position {
    pub x: u16,
    pub y: u16,
    pub z: u8,
}

/// The eight directions a creature can face or step in.
#[derive(Debug, Clone, Copy, PartialEq, Eq, Structural)]
pub enum Direction {
    North,
    East,
    South,
    West,
    SouthWest,
    SouthEast,
    NorthWest,
    NorthEast,
}

/// The wire number of a direction.
pub open spec fn direction_number(dir: Direction) -> u8 {
    match dir {
        Direction::North => 0,
        Direction::East => 1,
        Direction::South => 2,
        Direction::West => 3,
        Direction::SouthWest => 4,
        Direction::SouthEast => 5,
        Direction::NorthWest => 6,
        Direction::NorthEast => 7,
    }
}

/// The step in x and y that a direction takes.
pub open spec fn direction_delta(dir: Direction) -> (int, int) {
    match dir {
        Direction::North => (0, -1),
        Direction::South => (0, 1),
        Direction::East => (1, 0),
        Direction::West => (-1, 0),
        Direction::NorthEast => (1, -1),
        Direction::SouthEast => (1, 1),
        Direction::NorthWest => (-1, -1),
        Direction::SouthWest => (-1, 1),
    }
}

/// `v` limited to the coordinate range.
pub open spec fn clamp_coordinate(v: int) -> int {
    if v < 0 {
        0
    } else if v > u16::MAX {
        u16::MAX as int
    } else {
        v
    }
}

impl Direction {
    /// The wire number of this direction.
    pub fn to_u8(self) -> (n: u8)
        ensures
            n == direction_number(self),
    {
        match self {
            Direction::North => 0,
            Direction::East => 1,
            Direction::South => 2,
            Direction::West => 3,
            Direction::SouthWest => 4,
            Direction::SouthEast => 5,
            Direction::NorthWest => 6,
            Direction::NorthEast => 7,
        }
    }

    /// The direction with wire number `n`, if there is one.
    pub fn from_u8(n: u8) -> (dir: Option<Direction>)
        ensures
            n < 8 <==> dir is Some,
            dir matches Some(d) ==> direction_number(d) == n,
    {
        match n {
            0 => Some(Direction::North),
            1 => Some(Direction::East),
            2 => Some(Direction::South),
            3 => Some(Direction::West),
            4 => Some(Direction::SouthWest),
            5 => Some(Direction::SouthEast),
            6 => Some(Direction::NorthWest),
            7 => Some(Direction::NorthEast),
            _ => None,
        }
    }
}

fn clamp_step(v: u16, d: i32) -> (r: u16)
    requires
        -1 <= d <= 1,
    ensures
        r == clamp_coordinate(v + d),
{
    let moved: i32 = v as i32 + d;
    if moved < 0 {
        0
    } else if moved > 65535 {
        65535
    } else {
        moved as u16
    }
}

impl Position {
    /// The position one step in `dir`, clamped at the map's edges rather
    /// than wrapping; the floor stays the same.
    pub fn offset_direction(self, dir: Direction) -> (p: Position)
        ensures
            p.x == clamp_coordinate(self.x + direction_delta(dir).0),
            p.y == clamp_coordinate(self.y + direction_delta(dir).1),
            p.z == self.z,
    {
        let (dx, dy): (i32, i32) = match dir {
            Direction::North => (0, -1),
            Direction::South => (0, 1),
            Direction::East => (1, 0),
            Direction::West => (-1, 0),
            Direction::NorthEast => (1, -1),
            Direction::SouthEast => (1, 1),
            Direction::NorthWest => (-1, -1),
            Direction::SouthWest => (-1, 1),
        };
        Position { x: clamp_step(self.x, dx), y: clamp_step(self.y, dy), z: self.z }
    }
}

/// A town: its id, name and temple position.
#[derive(Debug, Clone, PartialEq, Eq)]
pub struct Town {
    pub id: u32,
    pub name: String,
    pub temple_pos: Position,
}

} // verus!
