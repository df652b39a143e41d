//! The game map: its tiles by position, the creatures of each 8x8 block
//! (the blocks the spectator search walks), the cached spectator lists, and
//! the towns, waypoints and houses read with it.
use vstd::prelude::*;
use std::collections::{BTreeMap, HashMap};
use std::collections::hash_map::Entry;
use crate::map::{Position, Town};
use crate::map::houses::{House, Houses};
use crate::map::tile::{
    CreatureId, Tile, TileView, TILESTATE_BLOCKSOLID, TILESTATE_FLOORCHANGE, TILESTATE_FLOORCHANGE_DOWN,
    TILESTATE_FLOORCHANGE_EAST, TILESTATE_FLOORCHANGE_EAST_ALT, TILESTATE_FLOORCHANGE_NORTH,
    TILESTATE_FLOORCHANGE_SOUTH, TILESTATE_FLOORCHANGE_SOUTH_ALT, TILESTATE_FLOORCHANGE_WEST,
};

verus! {

/// The number of floors.
pub const MAP_MAX_LAYERS: u8 = 16;
/// The side of a block of tiles whose creatures are listed together.
pub const FLOOR_SIZE: u16 = 8;
/// How far east and west the default spectator search reaches.
pub const MAX_VIEWPORT_X_SPECTATOR: i32 = 11;
/// How far north and south the default spectator search reaches.
pub const MAX_VIEWPORT_Y_SPECTATOR: i32 = 11;

/// The key under which the tile at `p` is kept.
pub open spec fn pos_key(p: Position) -> u64 {
    (p.x * 16777216 + p.y * 256 + p.z) as u64
}

/// The key of the block of tiles holding column `x`, row `y`.
pub open spec fn block_key(x: u16, y: u16) -> u32 {
    ((x / 8) * 8192 + y / 8) as u32
}

/// The creatures in a block, and the players among them, each in the order
/// they arrived (a leaving creature's place is taken by the last one).
pub struct Leaf {
    pub creature_list: Vec<CreatureId>,
    pub player_list: Vec<CreatureId>,
}

/// A block's creatures and players, as the contracts see them.
pub struct LeafView {
    pub creatures: Seq<CreatureId>,
    pub players: Seq<CreatureId>,
}

impl Leaf {
    fn add_creature(&mut self, id: CreatureId, is_player: bool)
        ensures
            final(self)@ == (LeafView {
                creatures: old(self)@.creatures.push(id),
                players: if is_player {
                    old(self)@.players.push(id)
                } else {
                    old(self)@.players
                },
            }),
    {
        self.creature_list.push(id);
        if is_player {
            self.player_list.push(id);
        }
    }

    fn remove_creature(&mut self, id: CreatureId, is_player: bool)
        ensures
            final(self)@ == (LeafView {
                creatures: swap_remove_first(old(self)@.creatures, id),
                players: if is_player {
                    swap_remove_first(old(self)@.players, id)
                } else {
                    old(self)@.players
                },
            }),
    {
        swap_remove_id(&mut self.creature_list, id);
        if is_player {
            swap_remove_id(&mut self.player_list, id);
        }
    }
}

fn swap_remove_id(list: &mut Vec<CreatureId>, id: CreatureId)
    ensures
        final(list)@ == swap_remove_first(old(list)@, id),
{
    let mut i: usize = 0;
    assert(list@.skip(0) =~= list@);
    while i < list.len()
        invariant
            i <= list@.len(),
            list@ == old(list)@,
            first_index(list@, id) == match first_index(list@.skip(i as int), id) {
                Some(j) => Some(j + i),
                None => None,
            },
        decreases list@.len() - i,
    {
        proof {
            assert(list@.skip(i as int).drop_first() =~= list@.skip(i + 1));
        }
        if list[i] == id {
            list.swap_remove(i);
            return;
        }
        i = i + 1;
    }
}

impl View for Leaf {
    type V = LeafView;

    open spec fn view(&self) -> LeafView {
        LeafView { creatures: self.creature_list@, players: self.player_list@ }
    }
}

/// The map's content, as the contracts see it: tiles by `pos_key`, blocks
/// by `block_key`, the two spectator caches by `pos_key`, the towns, and
/// the size, description, file names, waypoints and houses read with it.
#[verifier::ext_equal]
pub struct MapView {
    pub tiles: Map<u64, TileView>,
    pub leaves: Map<u32, LeafView>,
    pub creature_cache: Map<u64, Seq<CreatureId>>,
    pub player_cache: Map<u64, Seq<CreatureId>>,
    pub towns: Map<u32, Town>,
    pub width: u16,
    pub height: u16,
    pub description: Seq<char>,
    pub spawn_file: Option<String>,
    pub house_file: Option<String>,
    pub waypoints: Map<String, Position>,
    pub houses: Seq<(u32, House)>,
}

/// The game map.
pub struct GameMap {
    pub width: u16,
    pub height: u16,
    pub spawn_file: Option<String>,
    pub house_file: Option<String>,
    pub towns: BTreeMap<u32, Town>,
    pub waypoints: BTreeMap<String, Position>,
    pub houses: Houses,
    pub description: String,
    tiles: HashMap<u64, Tile>,
    leaves: HashMap<u32, Leaf>,
    spectator_cache: HashMap<u64, Vec<CreatureId>>,
    players_spectator_cache: HashMap<u64, Vec<CreatureId>>,
}

/// The views of a map of blocks.
pub open spec fn leaf_views(m: Map<u32, Leaf>) -> Map<u32, LeafView> {
    Map::new(|k: u32| m.contains_key(k), |k: u32| m[k]@)
}

impl View for GameMap {
    type V = MapView;

    closed spec fn view(&self) -> MapView {
        MapView {
            tiles: Map::new(|k: u64| self.tiles@.contains_key(k), |k: u64| self.tiles@[k]@),
            leaves: leaf_views(self.leaves@),
            creature_cache: Map::new(
                |k: u64| self.spectator_cache@.contains_key(k),
                |k: u64| self.spectator_cache@[k]@,
            ),
            player_cache: Map::new(
                |k: u64| self.players_spectator_cache@.contains_key(k),
                |k: u64| self.players_spectator_cache@[k]@,
            ),
            towns: self.towns@,
            width: self.width,
            height: self.height,
            description: self.description@,
            spawn_file: self.spawn_file,
            house_file: self.house_file,
            waypoints: self.waypoints@,
            houses: self.houses@,
        }
    }
}

/// The tile at `p`, if there is one (there is none below the last floor).
pub open spec fn tile_at(v: MapView, p: Position) -> Option<TileView> {
    if p.z < MAP_MAX_LAYERS && v.tiles.contains_key(pos_key(p)) {
        Some(v.tiles[pos_key(p)])
    } else {
        None
    }
}

/// The block holding column `x`, row `y`, if it was ever given a tile.
pub open spec fn leaf_at(leaves: Map<u32, LeafView>, x: u16, y: u16) -> Option<LeafView> {
    if leaves.contains_key(block_key(x, y)) {
        Some(leaves[block_key(x, y)])
    } else {
        None
    }
}

/// The creatures (or the players) of the blocks in row `cy`, from column
/// `cx` to `endx` by steps of a block.
pub open spec fn row_spectators(v: Map<u32, LeafView>, cx: int, endx: int, cy: int, only_players: bool) -> Seq<
    CreatureId,
>
    decreases endx - cx + 8,
{
    if cx > endx || cx < 0 || cx > 0xFFFF || cy < 0 || cy > 0xFFFF {
        Seq::empty()
    } else {
        let here = match leaf_at(v, cx as u16, cy as u16) {
            Some(l) => if only_players {
                l.players
            } else {
                l.creatures
            },
            None => Seq::empty(),
        };
        here + row_spectators(v, cx + 8, endx, cy, only_players)
    }
}

/// The creatures (or the players) of the blocks in the rows from `cy` to
/// `endy`, each row from `startx` to `endx`, by steps of a block.
pub open spec fn area_spectators(
    v: Map<u32, LeafView>,
    startx: int,
    endx: int,
    cy: int,
    endy: int,
    only_players: bool,
) -> Seq<CreatureId>
    decreases endy - cy + 8,
{
    if cy > endy {
        Seq::empty()
    } else {
        row_spectators(v, startx, endx, cy, only_players) + area_spectators(
            v,
            startx,
            endx,
            cy + 8,
            endy,
            only_players,
        )
    }
}

/// `v` limited to the coordinate range.
pub open spec fn clamp16(v: int) -> int {
    if v < 0 {
        0
    } else if v > 0xFFFF {
        0xFFFF
    } else {
        v
    }
}

/// The first block column, last block column, first block row and last
/// block row searched around `c` with the given ranges: the rectangle is
/// shifted by the floor distance to the range's top and bottom floors.
pub open spec fn search_area(
    c: Position,
    min_rx: int,
    max_rx: int,
    min_ry: int,
    max_ry: int,
    min_rz: int,
    max_rz: int,
) -> (int, int, int, int) {
    let min_offset = c.z - max_rz;
    let max_offset = c.z - min_rz;
    let x1 = clamp16(c.x + min_rx + min_offset);
    let y1 = clamp16(c.y + min_ry + min_offset);
    let x2 = clamp16(c.x + max_rx + max_offset);
    let y2 = clamp16(c.y + max_ry + max_offset);
    (x1 - x1 % 8, x2 - x2 % 8, y1 - y1 % 8, y2 - y2 % 8)
}

/// The creatures (or players) found around `c` with the given ranges.
#[verifier::opaque]
pub open spec fn spectators_in(
    v: Map<u32, LeafView>,
    c: Position,
    min_rx: int,
    max_rx: int,
    min_ry: int,
    max_ry: int,
    min_rz: int,
    max_rz: int,
    only_players: bool,
) -> Seq<CreatureId> {
    let (sx, ex, sy, ey) = search_area(c, min_rx, max_rx, min_ry, max_ry, min_rz, max_rz);
    area_spectators(v, sx, ex, sy, ey, only_players)
}

/// The floors searched from floor `z`: on one floor only that floor; over
/// floors, two up and down underground, else the floors above ground (and
/// one or two below from floors 6 and 7).
pub open spec fn floor_search(z: int, multifloor: bool) -> (int, int) {
    if !multifloor {
        (z, z)
    } else if z > 7 {
        (if z - 2 > 0 {
            z - 2
        } else {
            0
        }, if z + 2 < 15 {
            z + 2
        } else {
            15
        })
    } else if z == 6 {
        (0, 8)
    } else if z == 7 {
        (0, 9)
    } else {
        (0, 7)
    }
}

/// The creatures (or players) that block `l` lists.
pub open spec fn leaf_list_of(l: LeafView, only_players: bool) -> Seq<CreatureId> {
    if only_players {
        l.players
    } else {
        l.creatures
    }
}

proof fn lemma_contains_concat(a: Seq<CreatureId>, b: Seq<CreatureId>, id: CreatureId)
    requires
        a.contains(id) || b.contains(id),
    ensures
        (a + b).contains(id),
{
    if a.contains(id) {
        let i = choose|i: int| 0 <= i < a.len() && a[i] == id;
        assert((a + b)[i] == id);
    } else {
        let i = choose|i: int| 0 <= i < b.len() && b[i] == id;
        assert((a + b)[a.len() + i] == id);
    }
}

proof fn lemma_row_has(
    v: Map<u32, LeafView>,
    cx: int,
    endx: int,
    cy: int,
    only_players: bool,
    bx: int,
    id: CreatureId,
)
    requires
        0 <= cx <= bx <= endx,
        (bx - cx) % 8 == 0,
        bx <= 0xFFFF,
        0 <= cy <= 0xFFFF,
        leaf_at(v, bx as u16, cy as u16) matches Some(l) && leaf_list_of(l, only_players).contains(id),
    ensures
        row_spectators(v, cx, endx, cy, only_players).contains(id),
    decreases bx - cx,
{
    let here = match leaf_at(v, cx as u16, cy as u16) {
        Some(l) => if only_players {
            l.players
        } else {
            l.creatures
        },
        None => Seq::empty(),
    };
    let rest = row_spectators(v, cx + 8, endx, cy, only_players);
    if cx == bx {
        lemma_contains_concat(here, rest, id);
    } else {
        lemma_row_has(v, cx + 8, endx, cy, only_players, bx, id);
        lemma_contains_concat(here, rest, id);
    }
}

proof fn lemma_area_has(
    v: Map<u32, LeafView>,
    sx: int,
    ex: int,
    cy: int,
    endy: int,
    only_players: bool,
    bx: int,
    by: int,
    id: CreatureId,
)
    requires
        0 <= sx <= bx <= ex,
        (bx - sx) % 8 == 0,
        bx <= 0xFFFF,
        0 <= cy <= by <= endy,
        (by - cy) % 8 == 0,
        by <= 0xFFFF,
        leaf_at(v, bx as u16, by as u16) matches Some(l) && leaf_list_of(l, only_players).contains(id),
    ensures
        area_spectators(v, sx, ex, cy, endy, only_players).contains(id),
    decreases by - cy,
{
    let row = row_spectators(v, sx, ex, cy, only_players);
    let rest = area_spectators(v, sx, ex, cy + 8, endy, only_players);
    if cy == by {
        lemma_row_has(v, sx, ex, cy, only_players, bx, id);
        lemma_contains_concat(row, rest, id);
    } else {
        lemma_area_has(v, sx, ex, cy + 8, endy, only_players, bx, by, id);
        lemma_contains_concat(row, rest, id);
    }
}

/// A search around `c` with ranges `min_rx..max_rx`, `min_ry..max_ry` over
/// floors `lo..hi` finds every creature (or player) of a block holding a
/// square of the rectangle it covers: the ranges shifted by the distance to
/// the top floor at the top left and to the bottom floor at the bottom
/// right.
proof fn lemma_search_covers(
    v: Map<u32, LeafView>,
    c: Position,
    min_rx: int,
    max_rx: int,
    min_ry: int,
    max_ry: int,
    lo: int,
    hi: int,
    x: int,
    y: int,
    only_players: bool,
    id: CreatureId,
)
    requires
        c.x + min_rx + (c.z - hi) <= x <= c.x + max_rx + (c.z - lo),
        c.y + min_ry + (c.z - hi) <= y <= c.y + max_ry + (c.z - lo),
        0 <= x <= 0xFFFF,
        0 <= y <= 0xFFFF,
        leaf_at(v, x as u16, y as u16) matches Some(l) && leaf_list_of(l, only_players).contains(id),
    ensures
        spectators_in(v, c, min_rx, max_rx, min_ry, max_ry, lo, hi, only_players).contains(id),
{
    reveal(spectators_in);
    let (sx, ex, sy, ey) = search_area(c, min_rx, max_rx, min_ry, max_ry, lo, hi);
    let bx = x - x % 8;
    let by = y - y % 8;
    let x1 = clamp16(c.x + min_rx + (c.z - hi));
    let x2 = clamp16(c.x + max_rx + (c.z - lo));
    let y1 = clamp16(c.y + min_ry + (c.z - hi));
    let y2 = clamp16(c.y + max_ry + (c.z - lo));
    assert(x1 <= x <= x2 && y1 <= y <= y2);
    assert(sx == x1 - x1 % 8 && ex == x2 - x2 % 8 && sy == y1 - y1 % 8 && ey == y2 - y2 % 8);
    assert(sx <= bx <= ex && (bx - sx) % 8 == 0) by {
        assert(x1 - x1 % 8 <= x - x % 8 <= x2 - x2 % 8) by (nonlinear_arith)
            requires
                0 <= x1 <= x <= x2,
        ;
        assert((x - x % 8 - (x1 - x1 % 8)) % 8 == 0) by (nonlinear_arith)
            requires
                0 <= x1,
                0 <= x,
        ;
    }
    assert(sy <= by <= ey && (by - sy) % 8 == 0) by {
        assert(y1 - y1 % 8 <= y - y % 8 <= y2 - y2 % 8) by (nonlinear_arith)
            requires
                0 <= y1 <= y <= y2,
        ;
        assert((y - y % 8 - (y1 - y1 % 8)) % 8 == 0) by (nonlinear_arith)
            requires
                0 <= y1,
                0 <= y,
        ;
    }
    assert(block_key(bx as u16, by as u16) == block_key(x as u16, y as u16)) by {
        assert((x - x % 8) / 8 == x / 8) by (nonlinear_arith)
            requires
                0 <= x,
        ;
        assert((y - y % 8) / 8 == y / 8) by (nonlinear_arith)
            requires
                0 <= y,
        ;
    }
    lemma_area_has(v, sx, ex, sy, ey, only_players, bx, by, id);
}

/// An underground search over floors (floors 8 to 15) reaches two floors
/// down and up to two floors up (not below the last floor, 15): each floor
/// away shifts the view one square, so the searched rectangle is the ranges
/// widened by two squares to the bottom right and by the number of floors
/// searched below the centre to the top left, and every creature (or
/// player) of a block holding a square of it is found.
pub proof fn law_underground_search_reaches_two_floors(
    v: Map<u32, LeafView>,
    c: Position,
    only_players: bool,
    min_range_x: i32,
    max_range_x: i32,
    min_range_y: i32,
    max_range_y: i32,
    x: int,
    y: int,
    id: CreatureId,
)
    requires
        8 <= c.z <= 15,
        ({
            let below: int = if c.z <= 13 { 2 } else { 15 - c.z };
            let r = search_ranges(min_range_x, max_range_x, min_range_y, max_range_y);
            &&& c.x + r.0 - below <= x <= c.x + r.1 + 2
            &&& c.y + r.2 - below <= y <= c.y + r.3 + 2
        }),
        0 <= x <= 0xFFFF,
        0 <= y <= 0xFFFF,
        leaf_at(v, x as u16, y as u16) matches Some(l) && leaf_list_of(l, only_players).contains(id),
    ensures
        fresh_spectators(
            v,
            c,
            true,
            only_players,
            min_range_x,
            max_range_x,
            min_range_y,
            max_range_y,
        ).contains(id),
{
    let (a, b, d, e) = search_ranges(min_range_x, max_range_x, min_range_y, max_range_y);
    let hi: int = if c.z <= 13 { c.z + 2 } else { 15 };
    lemma_search_covers(v, c, a, b, d, e, c.z - 2, hi, x, y, only_players, id);
}

/// A search on one floor covers just the ranges: every
/// creature (or player) of a block holding a square within them is found.
pub proof fn law_one_floor_search_covers_ranges(
    v: Map<u32, LeafView>,
    c: Position,
    only_players: bool,
    min_range_x: i32,
    max_range_x: i32,
    min_range_y: i32,
    max_range_y: i32,
    x: int,
    y: int,
    id: CreatureId,
)
    requires
        c.x + search_ranges(min_range_x, max_range_x, min_range_y, max_range_y).0 <= x <= c.x
            + search_ranges(min_range_x, max_range_x, min_range_y, max_range_y).1,
        c.y + search_ranges(min_range_x, max_range_x, min_range_y, max_range_y).2 <= y <= c.y
            + search_ranges(min_range_x, max_range_x, min_range_y, max_range_y).3,
        0 <= x <= 0xFFFF,
        0 <= y <= 0xFFFF,
        leaf_at(v, x as u16, y as u16) matches Some(l) && leaf_list_of(l, only_players).contains(id),
    ensures
        fresh_spectators(
            v,
            c,
            false,
            only_players,
            min_range_x,
            max_range_x,
            min_range_y,
            max_range_y,
        ).contains(id),
{
    let (a, b, d, e) = search_ranges(min_range_x, max_range_x, min_range_y, max_range_y);
    lemma_search_covers(v, c, a, b, d, e, c.z as int, c.z as int, x, y, only_players, id);
}

/// A search over floors from above ground (floors 0 to 7) looks down to
/// floor 7, and from floors 6 and 7 to two floors below: the rectangle
/// reaches as many squares further to the bottom right as the centre is
/// above floor 0, and to the top left as many as the lowest floor searched
/// is below the centre; every creature (or player) of a block holding a
/// square of it is found.
pub proof fn law_surface_search_reaches_down(
    v: Map<u32, LeafView>,
    c: Position,
    only_players: bool,
    min_range_x: i32,
    max_range_x: i32,
    min_range_y: i32,
    max_range_y: i32,
    x: int,
    y: int,
    id: CreatureId,
)
    requires
        c.z <= 7,
        ({
            let below: int = if c.z == 6 || c.z == 7 { 2 } else { 7 - c.z };
            let r = search_ranges(min_range_x, max_range_x, min_range_y, max_range_y);
            &&& c.x + r.0 - below <= x <= c.x + r.1 + c.z
            &&& c.y + r.2 - below <= y <= c.y + r.3 + c.z
        }),
        0 <= x <= 0xFFFF,
        0 <= y <= 0xFFFF,
        leaf_at(v, x as u16, y as u16) matches Some(l) && leaf_list_of(l, only_players).contains(id),
    ensures
        fresh_spectators(
            v,
            c,
            true,
            only_players,
            min_range_x,
            max_range_x,
            min_range_y,
            max_range_y,
        ).contains(id),
{
    let (a, b, d, e) = search_ranges(min_range_x, max_range_x, min_range_y, max_range_y);
    let hi: int = if c.z == 6 { 8 } else if c.z == 7 { 9 } else { 7 };
    lemma_search_covers(v, c, a, b, d, e, 0, hi, x, y, only_players, id);
}

/// The creatures (or players) of the default search around `c`: 11 squares
/// each way, over floors.
pub open spec fn default_spectators(v: Map<u32, LeafView>, c: Position, only_players: bool) -> Seq<CreatureId> {
    let (min_rz, max_rz) = floor_search(c.z as int, true);
    spectators_in(v, c, -11, 11, -11, 11, min_rz, max_rz, only_players)
}

/// The position whose key is `k`.
pub open spec fn key_position(k: u64) -> Position {
    Position { x: (k / 16777216) as u16, y: ((k / 256) % 65536) as u16, z: (k % 256) as u8 }
}

/// Every cached list is what the default search around its position finds.
#[verifier::opaque]
pub open spec fn caches_fresh(v: MapView) -> bool {
    &&& forall|k: u64| #[trigger]
        v.creature_cache.contains_key(k) ==> k % 256 < MAP_MAX_LAYERS && k / 16777216 < 65536
            && v.creature_cache[k] == default_spectators(v.leaves, key_position(k), false)
    &&& forall|k: u64| #[trigger]
        v.player_cache.contains_key(k) ==> k % 256 < MAP_MAX_LAYERS && k / 16777216 < 65536
            && v.player_cache[k] == default_spectators(v.leaves, key_position(k), true)
}

/// A block given an empty list does not change the creatures found in a row.
proof fn lemma_empty_leaf_row(
    v: Map<u32, LeafView>,
    w: Map<u32, LeafView>,
    b: u32,
    cx: int,
    endx: int,
    cy: int,
    only: bool,
)
    requires
        !v.contains_key(b),
        w == v.insert(b, LeafView { creatures: Seq::empty(), players: Seq::empty() }),
    ensures
        row_spectators(w, cx, endx, cy, only) == row_spectators(v, cx, endx, cy, only),
    decreases endx - cx + 8,
{
    if !(cx > endx || cx < 0 || cx > 0xFFFF || cy < 0 || cy > 0xFFFF) {
        lemma_empty_leaf_row(v, w, b, cx + 8, endx, cy, only);
        let here_v = match leaf_at(v, cx as u16, cy as u16) {
            Some(l) => if only {
                l.players
            } else {
                l.creatures
            },
            None => Seq::<CreatureId>::empty(),
        };
        let here_w = match leaf_at(w, cx as u16, cy as u16) {
            Some(l) => if only {
                l.players
            } else {
                l.creatures
            },
            None => Seq::<CreatureId>::empty(),
        };
        assert(here_v =~= here_w);
    }
}

/// A block given an empty list does not change the creatures found in an
/// area.
proof fn lemma_empty_leaf_area(
    v: Map<u32, LeafView>,
    w: Map<u32, LeafView>,
    b: u32,
    sx: int,
    ex: int,
    cy: int,
    ey: int,
    only: bool,
)
    requires
        !v.contains_key(b),
        w == v.insert(b, LeafView { creatures: Seq::empty(), players: Seq::empty() }),
    ensures
        area_spectators(w, sx, ex, cy, ey, only) == area_spectators(v, sx, ex, cy, ey, only),
    decreases ey - cy + 8,
{
    if cy <= ey {
        lemma_empty_leaf_row(v, w, b, sx, ex, cy, only);
        lemma_empty_leaf_area(v, w, b, sx, ex, cy + 8, ey, only);
    }
}


/// The creatures (or players) of one block, if it has lists.
pub open spec fn leaf_list(leaves: Map<u32, LeafView>, x: u16, y: u16, only_players: bool) -> Seq<CreatureId> {
    match leaf_at(leaves, x, y) {
        Some(l) => if only_players {
            l.players
        } else {
            l.creatures
        },
        None => Seq::empty(),
    }
}

/// The arithmetic of a search around `c` stays within 32-bit integers.
pub open spec fn search_fits(
    c: Position,
    min_rx: int,
    max_rx: int,
    min_ry: int,
    max_ry: int,
    min_rz: int,
    max_rz: int,
) -> bool {
    let fits = |v: int| i32::MIN <= v <= i32::MAX;
    &&& fits(c.x + min_rx)
    &&& fits(c.y + min_ry)
    &&& fits(c.x + max_rx)
    &&& fits(c.y + max_ry)
    &&& fits(c.z - max_rz)
    &&& fits(c.z - min_rz)
    &&& fits(c.x + min_rx + (c.z - max_rz))
    &&& fits(c.y + min_ry + (c.z - max_rz))
    &&& fits(c.x + max_rx + (c.z - min_rz))
    &&& fits(c.y + max_ry + (c.z - min_rz))
}

/// The ranges of a spectator search: a range of 0 stands for the default
/// of 11 squares; the minimum ranges reach west and north.
pub open spec fn search_ranges(min_range_x: i32, max_range_x: i32, min_range_y: i32, max_range_y: i32) -> (
    int,
    int,
    int,
    int,
) {
    (
        if min_range_x == 0 {
            -11
        } else {
            -min_range_x
        },
        if max_range_x == 0 {
            11
        } else {
            max_range_x as int
        },
        if min_range_y == 0 {
            -11
        } else {
            -min_range_y
        },
        if max_range_y == 0 {
            11
        } else {
            max_range_y as int
        },
    )
}

/// Whether a search is the default one, whose result is cached.
pub open spec fn is_default_search(
    min_range_x: i32,
    max_range_x: i32,
    min_range_y: i32,
    max_range_y: i32,
    multifloor: bool,
) -> bool {
    search_ranges(min_range_x, max_range_x, min_range_y, max_range_y) == (-11int, 11int, -11int, 11int)
        && multifloor
}

/// The arguments of a spectator search around `c` keep its arithmetic in
/// range.
pub open spec fn spectator_args_fit(
    c: Position,
    multifloor: bool,
    min_range_x: i32,
    max_range_x: i32,
    min_range_y: i32,
    max_range_y: i32,
) -> bool {
    let (min_rx, max_rx, min_ry, max_ry) = search_ranges(min_range_x, max_range_x, min_range_y, max_range_y);
    let (min_rz, max_rz) = floor_search(c.z as int, multifloor);
    c.z < MAP_MAX_LAYERS ==> min_range_x != i32::MIN && min_range_y != i32::MIN && search_fits(
        c,
        min_rx,
        max_rx,
        min_ry,
        max_ry,
        min_rz,
        max_rz,
    )
}

/// What a fresh spectator search around `c` finds.
pub open spec fn fresh_spectators(
    leaves: Map<u32, LeafView>,
    c: Position,
    multifloor: bool,
    only_players: bool,
    min_range_x: i32,
    max_range_x: i32,
    min_range_y: i32,
    max_range_y: i32,
) -> Seq<CreatureId> {
    let (min_rx, max_rx, min_ry, max_ry) = search_ranges(min_range_x, max_range_x, min_range_y, max_range_y);
    let (min_rz, max_rz) = floor_search(c.z as int, multifloor);
    spectators_in(leaves, c, min_rx, max_rx, min_ry, max_ry, min_rz, max_rz, only_players)
}

/// What a spectator search around `c` returns: nothing below the last
/// floor; for the default search a cached list where there is one (the
/// players' list, else the list of all creatures); else a fresh search.
pub open spec fn spectator_result(
    v: MapView,
    c: Position,
    multifloor: bool,
    only_players: bool,
    min_range_x: i32,
    max_range_x: i32,
    min_range_y: i32,
    max_range_y: i32,
) -> Seq<CreatureId> {
    let k = pos_key(c);
    let default = is_default_search(min_range_x, max_range_x, min_range_y, max_range_y, multifloor);
    if c.z >= MAP_MAX_LAYERS {
        Seq::empty()
    } else if default && only_players && v.player_cache.contains_key(k) {
        v.player_cache[k]
    } else if default && v.creature_cache.contains_key(k) {
        v.creature_cache[k]
    } else {
        fresh_spectators(
            v.leaves,
            c,
            multifloor,
            only_players,
            min_range_x,
            max_range_x,
            min_range_y,
            max_range_y,
        )
    }
}

/// The map after a spectator search around `c`: a default search that was
/// not cached has its result cached.
pub open spec fn spectator_state(
    v: MapView,
    c: Position,
    multifloor: bool,
    only_players: bool,
    min_range_x: i32,
    max_range_x: i32,
    min_range_y: i32,
    max_range_y: i32,
) -> MapView {
    let k = pos_key(c);
    let default = is_default_search(min_range_x, max_range_x, min_range_y, max_range_y, multifloor);
    let hit = (only_players && v.player_cache.contains_key(k)) || v.creature_cache.contains_key(k);
    let fresh = fresh_spectators(
        v.leaves,
        c,
        multifloor,
        only_players,
        min_range_x,
        max_range_x,
        min_range_y,
        max_range_y,
    );
    if c.z >= MAP_MAX_LAYERS || !default || hit {
        v
    } else if only_players {
        MapView { player_cache: v.player_cache.insert(k, fresh), ..v }
    } else {
        MapView { creature_cache: v.creature_cache.insert(k, fresh), ..v }
    }
}

/// A cached list is what the default search around its position finds.
proof fn lemma_cache_hit(v: MapView, c: Position)
    requires
        caches_fresh(v),
    ensures
        v.creature_cache.contains_key(pos_key(c)) ==> v.creature_cache[pos_key(c)]
            == default_spectators(v.leaves, c, false),
        v.player_cache.contains_key(pos_key(c)) ==> v.player_cache[pos_key(c)]
            == default_spectators(v.leaves, c, true),
{
    reveal(caches_fresh);
    lemma_key_position(c);
}

/// Caching the default search around `c` keeps the caches fresh.
proof fn lemma_cache_store(v: MapView, c: Position, only_players: bool)
    requires
        caches_fresh(v),
        c.z < MAP_MAX_LAYERS,
    ensures
        only_players ==> caches_fresh(
            MapView {
                player_cache: v.player_cache.insert(pos_key(c), default_spectators(v.leaves, c, true)),
                ..v
            },
        ),
        !only_players ==> caches_fresh(
            MapView {
                creature_cache: v.creature_cache.insert(
                    pos_key(c),
                    default_spectators(v.leaves, c, false),
                ),
                ..v
            },
        ),
{
    reveal(caches_fresh);
    lemma_key_position(c);
}

/// Caches with the same lists over the same blocks stay fresh.
proof fn lemma_cache_same(v: MapView, w: MapView)
    requires
        caches_fresh(v),
        w.leaves == v.leaves,
        w.creature_cache == v.creature_cache,
        w.player_cache == v.player_cache,
    ensures
        caches_fresh(w),
{
    reveal(caches_fresh);
}

/// Empty caches are fresh.
proof fn lemma_cache_empty(w: MapView)
    requires
        w.creature_cache.is_empty(),
        w.player_cache.is_empty(),
    ensures
        caches_fresh(w),
{
    reveal(caches_fresh);
}

/// Caches with the same lists over the same blocks as fresh caches are fresh.
broadcast proof fn lemma_cache_frame(v: MapView, w: MapView)
    ensures
        (#[trigger] caches_fresh(v)) && w.leaves == v.leaves && w.creature_cache == v.creature_cache
            && w.player_cache == v.player_cache ==> #[trigger] caches_fresh(w),
{
    reveal(caches_fresh);
}

/// Blocks with the same players find the same players in a row.
proof fn lemma_players_row(v: Map<u32, LeafView>, w: Map<u32, LeafView>, cx: int, endx: int, cy: int)
    requires
        w.dom() == v.dom(),
        forall|k: u32| #[trigger] v.contains_key(k) ==> w[k].players == v[k].players,
    ensures
        row_spectators(w, cx, endx, cy, true) == row_spectators(v, cx, endx, cy, true),
    decreases endx - cx + 8,
{
    if !(cx > endx || cx < 0 || cx > 0xFFFF || cy < 0 || cy > 0xFFFF) {
        lemma_players_row(v, w, cx + 8, endx, cy);
        assert(w.contains_key(block_key(cx as u16, cy as u16)) == v.contains_key(
            block_key(cx as u16, cy as u16),
        ));
    }
}

/// Blocks with the same players find the same players in an area.
proof fn lemma_players_area(v: Map<u32, LeafView>, w: Map<u32, LeafView>, sx: int, ex: int, cy: int, ey: int)
    requires
        w.dom() == v.dom(),
        forall|k: u32| #[trigger] v.contains_key(k) ==> w[k].players == v[k].players,
    ensures
        area_spectators(w, sx, ex, cy, ey, true) == area_spectators(v, sx, ex, cy, ey, true),
    decreases ey - cy + 8,
{
    if cy <= ey {
        lemma_players_row(v, w, sx, ex, cy);
        lemma_players_area(v, w, sx, ex, cy + 8, ey);
    }
}

/// The players' cache stays fresh when no block's players change.
proof fn lemma_player_cache_kept(v: MapView, w: MapView)
    requires
        caches_fresh(v),
        w.leaves.dom() == v.leaves.dom(),
        forall|k: u32| #[trigger] v.leaves.contains_key(k) ==> w.leaves[k].players == v.leaves[k].players,
        w.creature_cache.is_empty(),
        w.player_cache == v.player_cache,
    ensures
        caches_fresh(w),
{
    reveal(caches_fresh);
    reveal(spectators_in);
    assert forall|c: Position| #[trigger]
        default_spectators(w.leaves, c, true) == default_spectators(v.leaves, c, true) by {
        let (min_rz, max_rz) = floor_search(c.z as int, true);
        let (sx, ex, sy, ey) = search_area(c, -11, 11, -11, 11, min_rz, max_rz);
        lemma_players_area(v.leaves, w.leaves, sx, ex, sy, ey);
    }
}

/// A tile put at `p` is read back at `p`, and every other position keeps
/// its tile.
pub proof fn law_tile_read_after_write(v: MapView, p: Position, t: TileView, q: Position)
    requires
        p.z < MAP_MAX_LAYERS,
    ensures
        tile_at((MapView { tiles: v.tiles.insert(pos_key(p), t), ..v }), q) == if q == p {
            Some(t)
        } else {
            tile_at(v, q)
        },
{
    lemma_pos_key_injective(p, q);
}

/// A tile taken off `p` is gone, and every other position keeps its tile.
pub proof fn law_tile_removed(v: MapView, p: Position, q: Position)
    ensures
        tile_at((MapView { tiles: v.tiles.remove(pos_key(p)), ..v }), q) == if q == p {
            None
        } else {
            tile_at(v, q)
        },
{
    lemma_pos_key_injective(p, q);
}

/// A creature that arrives on a tile and leaves it again leaves the tile's
/// list as it was.
pub proof fn law_tile_arrival_undone(s: Seq<CreatureId>, id: CreatureId)
    ensures
        crate::map::tile::remove_first(seq![id] + s, id) == s,
{
    assert((seq![id] + s)[0] == id);
    assert((seq![id] + s).drop_first() =~= s);
}

/// A creature that joins a block's list and leaves it again, and was not in
/// it before, leaves the list as it was.
pub proof fn law_block_arrival_undone(s: Seq<CreatureId>, id: CreatureId)
    requires
        !s.contains(id),
    ensures
        swap_remove_first(s.push(id), id) == s,
{
    lemma_first_index_absent(s, id);
    lemma_first_index_push(s, id);
    assert(s.push(id).update(s.len() as int, id).drop_last() =~= s);
}

proof fn lemma_first_index_absent(s: Seq<CreatureId>, id: CreatureId)
    requires
        !s.contains(id),
    ensures
        first_index(s, id) is None,
    decreases s.len(),
{
    if s.len() > 0 {
        assert(s[0] != id);
        assert forall|i: int| 0 <= i < s.drop_first().len() implies s.drop_first()[i] != id by {
            assert(s.drop_first()[i] == s[i + 1]);
        }
        lemma_first_index_absent(s.drop_first(), id);
    }
}

proof fn lemma_first_index_push(s: Seq<CreatureId>, id: CreatureId)
    requires
        first_index(s, id) is None,
    ensures
        first_index(s.push(id), id) == Some(s.len() as int),
    decreases s.len(),
{
    if s.len() == 0 {
        assert(s.push(id)[0] == id);
    } else {
        assert(s.push(id)[0] == s[0]);
        assert(s.push(id).drop_first() =~= s.drop_first().push(id));
        if s[0] != id {
            lemma_first_index_push(s.drop_first(), id);
        }
    }
}

fn copy_ids(v: &Vec<CreatureId>) -> (r: Vec<CreatureId>)
    ensures
        r@ == v@,
{
    let mut r: Vec<CreatureId> = Vec::new();
    let mut i: usize = 0;
    while i < v.len()
        invariant
            i <= v@.len(),
            r@ == v@.take(i as int),
        decreases v@.len() - i,
    {
        r.push(v[i]);
        i = i + 1;
        assert(r@ =~= v@.take(i as int));
    }
    assert(v@.take(v@.len() as int) =~= v@);
    r
}

/// The index of the first `id` in `s`, if any.
pub open spec fn first_index(s: Seq<CreatureId>, id: CreatureId) -> Option<int>
    decreases s.len(),
{
    if s.len() == 0 {
        None
    } else if s[0] == id {
        Some(0)
    } else {
        match first_index(s.drop_first(), id) {
            Some(i) => Some(i + 1),
            None => None,
        }
    }
}

/// `s` with its first `id` replaced by its last element, and the last
/// element dropped.
pub open spec fn swap_remove_first(s: Seq<CreatureId>, id: CreatureId) -> Seq<CreatureId> {
    match first_index(s, id) {
        Some(i) => s.update(i, s.last()).drop_last(),
        None => s,
    }
}

/// The map with creature `id` arrived on the tile at `p`, if there is one.
pub open spec fn with_tile_arrival(v: MapView, p: Position, id: CreatureId) -> MapView {
    match tile_at(v, p) {
        Some(t) => MapView {
            tiles: v.tiles.insert(
                pos_key(p),
                TileView { creature_ids: seq![id] + t.creature_ids, ..t },
            ),
            ..v
        },
        None => v,
    }
}

/// The map with creature `id` gone from the tile at `p`, if there is one.
pub open spec fn with_tile_departure(v: MapView, p: Position, id: CreatureId) -> MapView {
    match tile_at(v, p) {
        Some(t) => MapView {
            tiles: v.tiles.insert(
                pos_key(p),
                TileView { creature_ids: crate::map::tile::remove_first(t.creature_ids, id), ..t },
            ),
            ..v
        },
        None => v,
    }
}

/// The map with creature `id` added to the lists of the block of `p`, if
/// it has lists.
pub open spec fn with_block_arrival(v: MapView, p: Position, id: CreatureId, is_player: bool) -> MapView {
    match leaf_at(v.leaves, p.x, p.y) {
        Some(l) => MapView {
            leaves: v.leaves.insert(
                block_key(p.x, p.y),
                LeafView {
                    creatures: l.creatures.push(id),
                    players: if is_player {
                        l.players.push(id)
                    } else {
                        l.players
                    },
                },
            ),
            ..v
        },
        None => v,
    }
}

/// The map with creature `id` taken from the lists of the block of `p`, if
/// it has lists.
pub open spec fn with_block_departure(v: MapView, p: Position, id: CreatureId, is_player: bool) -> MapView {
    match leaf_at(v.leaves, p.x, p.y) {
        Some(l) => MapView {
            leaves: v.leaves.insert(
                block_key(p.x, p.y),
                LeafView {
                    creatures: swap_remove_first(l.creatures, id),
                    players: if is_player {
                        swap_remove_first(l.players, id)
                    } else {
                        l.players
                    },
                },
            ),
            ..v
        },
        None => v,
    }
}

/// The map with the cache of all creatures emptied, and the players'
/// cache too when a player moved.
pub open spec fn with_caches_cleared(v: MapView, is_player: bool) -> MapView {
    MapView {
        creature_cache: Map::empty(),
        player_cache: if is_player {
            Map::empty()
        } else {
            v.player_cache
        },
        ..v
    }
}

/// Whether two positions lie in the same block with lists, or both in
/// blocks without.
pub open spec fn same_block_lists(v: MapView, a: Position, b: Position) -> bool {
    match (leaf_at(v.leaves, a.x, a.y), leaf_at(v.leaves, b.x, b.y)) {
        (Some(_), Some(_)) => block_key(a.x, a.y) == block_key(b.x, b.y),
        (None, None) => true,
        _ => false,
    }
}

/// The map after creature `id` moved from `from` to `to`: it leaves the tile
/// at `from` and arrives on the tile at `to`; unless both lie in the same
/// block (or both in blocks without lists) it leaves the lists of the one
/// block and joins those of the other; the caches are cleared.
pub open spec fn with_move(v: MapView, from: Position, to: Position, id: CreatureId, is_player: bool) -> MapView {
    let v2 = with_tile_arrival(with_tile_departure(v, from, id), to, id);
    let v3 = if same_block_lists(v, from, to) {
        v2
    } else {
        with_block_arrival(with_block_departure(v2, from, id, is_player), to, id, is_player)
    };
    with_caches_cleared(v3, is_player)
}

/// Whether the tile at `p` has any bit of `flag` (a missing tile has none).
pub open spec fn tile_has(v: MapView, p: Position, flag: u32) -> bool {
    match tile_at(v, p) {
        Some(t) => t.flags & flag != 0,
        None => false,
    }
}

/// The position recorded in the tile at `p`, if there is a tile.
pub open spec fn tile_position(v: MapView, p: Position) -> Option<Position> {
    match tile_at(v, p) {
        Some(t) => Some(t.position),
        None => None,
    }
}

/// Where a creature stepping on the tile at `p` ends up after a floor
/// change. A tile going down leads one floor lower: to two rows north where
/// the tile north of it there is a southern ramp, else two columns west
/// where the tile west of it there is an eastern ramp, else to the tile
/// below shifted away from its own floor-change directions. A tile going up
/// leads one floor higher, shifted by its directions. Any other tile keeps
/// `p`. No tile at `p`, or none at the destination, gives nothing.
pub open spec fn floor_change_destination(v: MapView, p: Position) -> Option<Position> {
    if tile_at(v, p) is None {
        None
    } else if tile_has(v, p, TILESTATE_FLOORCHANGE_DOWN) {
        let z = p.z.wrapping_add(1);
        let south = Position { x: p.x, y: p.y.wrapping_sub(1), z };
        let east = Position { x: p.x.wrapping_sub(1), y: p.y, z };
        let below = Position { x: p.x, y: p.y, z };
        if tile_has(v, south, TILESTATE_FLOORCHANGE_SOUTH_ALT) {
            tile_position(v, Position { x: p.x, y: p.y.wrapping_sub(2), z })
        } else if tile_has(v, east, TILESTATE_FLOORCHANGE_EAST_ALT) {
            tile_position(v, Position { x: p.x.wrapping_sub(2), y: p.y, z })
        } else if tile_at(v, below) is None {
            None
        } else {
            let y1 = if tile_has(v, below, TILESTATE_FLOORCHANGE_NORTH) {
                p.y.wrapping_add(1)
            } else {
                p.y
            };
            let y2 = if tile_has(v, below, TILESTATE_FLOORCHANGE_SOUTH) {
                y1.wrapping_sub(1)
            } else {
                y1
            };
            let y3 = if tile_has(v, below, TILESTATE_FLOORCHANGE_SOUTH_ALT) {
                y2.wrapping_sub(2)
            } else {
                y2
            };
            let x1 = if tile_has(v, below, TILESTATE_FLOORCHANGE_EAST) {
                p.x.wrapping_sub(1)
            } else {
                p.x
            };
            let x2 = if tile_has(v, below, TILESTATE_FLOORCHANGE_EAST_ALT) {
                x1.wrapping_sub(2)
            } else {
                x1
            };
            let x3 = if tile_has(v, below, TILESTATE_FLOORCHANGE_WEST) {
                x2.wrapping_add(1)
            } else {
                x2
            };
            tile_position(v, Position { x: x3, y: y3, z })
        }
    } else if tile_has(v, p, TILESTATE_FLOORCHANGE) {
        let z = p.z.wrapping_sub(1);
        let y1 = if tile_has(v, p, TILESTATE_FLOORCHANGE_NORTH) {
            p.y.wrapping_sub(1)
        } else {
            p.y
        };
        let y2 = if tile_has(v, p, TILESTATE_FLOORCHANGE_SOUTH) {
            y1.wrapping_add(1)
        } else {
            y1
        };
        let x1 = if tile_has(v, p, TILESTATE_FLOORCHANGE_EAST) {
            p.x.wrapping_add(1)
        } else {
            p.x
        };
        let x2 = if tile_has(v, p, TILESTATE_FLOORCHANGE_WEST) {
            x1.wrapping_sub(1)
        } else {
            x1
        };
        let y3 = if tile_has(v, p, TILESTATE_FLOORCHANGE_SOUTH_ALT) {
            y2.wrapping_add(2)
        } else {
            y2
        };
        let x3 = if tile_has(v, p, TILESTATE_FLOORCHANGE_EAST_ALT) {
            x2.wrapping_add(2)
        } else {
            x2
        };
        tile_position(v, Position { x: x3, y: y3, z })
    } else {
        Some(p)
    }
}

/// Whether a creature may stand on the tile at `p`.
pub open spec fn walkable_at(v: MapView, p: Position) -> bool {
    match tile_at(v, p) {
        Some(t) => t.ground is Some && t.flags & TILESTATE_BLOCKSOLID == 0,
        None => false,
    }
}

/// The squares tried one floor up from `p`, in order: south of it, then
/// north, east, west, south-west, south-east, north-west, north-east.
pub open spec fn upstairs_candidates(p: Position, z: u8) -> Seq<Position> {
    seq![
        Position { x: p.x, y: p.y.wrapping_add(1), z },
        Position { x: p.x, y: p.y.wrapping_sub(1), z },
        Position { x: p.x.wrapping_add(1), y: p.y, z },
        Position { x: p.x.wrapping_sub(1), y: p.y, z },
        Position { x: p.x.wrapping_sub(1), y: p.y.wrapping_add(1), z },
        Position { x: p.x.wrapping_add(1), y: p.y.wrapping_add(1), z },
        Position { x: p.x.wrapping_sub(1), y: p.y.wrapping_sub(1), z },
        Position { x: p.x.wrapping_add(1), y: p.y.wrapping_sub(1), z },
    ]
}

/// The first of `cs` from index `i` on where a creature may stand, else
/// the first of `cs`.
pub open spec fn first_walkable(v: MapView, cs: Seq<Position>, i: int) -> Position
    decreases cs.len() - i,
{
    if i >= cs.len() || i < 0 {
        cs[0]
    } else if walkable_at(v, cs[i]) {
        cs[i]
    } else {
        first_walkable(v, cs, i + 1)
    }
}

fn clamp_coord(v: i32) -> (r: u16)
    ensures
        r == clamp16(v as int),
{
    if v < 0 {
        0
    } else if v > 0xFFFF {
        0xFFFF
    } else {
        v as u16
    }
}

fn pos_key_of(p: Position) -> (k: u64)
    ensures
        k == pos_key(p),
{
    p.x as u64 * 16777216 + p.y as u64 * 256 + p.z as u64
}

fn block_key_of(x: u16, y: u16) -> (k: u32)
    ensures
        k == block_key(x, y),
{
    (x / 8) as u32 * 8192 + (y / 8) as u32
}

/// A key gives back the position it was made from.
pub proof fn lemma_key_position(p: Position)
    ensures
        key_position(pos_key(p)) == p,
        pos_key(p) % 256 == p.z,
        pos_key(p) / 16777216 < 65536,
{
    let k = p.x * 16777216 + p.y * 256 + p.z;
    assert(k < 0x1_0000_0000_0000);
    assert(k % 256 == p.z as int && (k / 256) % 65536 == p.y as int && k / 16777216 == p.x as int)
        by (nonlinear_arith)
        requires
            k == p.x * 16777216 + p.y * 256 + p.z,
            0 <= p.z < 256,
            0 <= p.y < 65536,
            0 <= p.x < 65536,
    ;
}

/// Different positions are kept under different keys.
pub proof fn lemma_pos_key_injective(a: Position, b: Position)
    ensures
        pos_key(a) == pos_key(b) ==> a == b,
{
    lemma_key_position(a);
    lemma_key_position(b);
}

impl Default for GameMap {
    fn default() -> (m: Self)
        ensures
            m.wf(),
            m@.tiles.is_empty(),
            m@.leaves.is_empty(),
            m@.creature_cache.is_empty(),
            m@.player_cache.is_empty(),
            m@.towns.is_empty(),
    {
        let m = GameMap {
            width: 0,
            height: 0,
            spawn_file: None,
            house_file: None,
            towns: BTreeMap::new(),
            waypoints: BTreeMap::new(),
            houses: Houses::default(),
            description: String::new(),
            tiles: HashMap::new(),
            leaves: HashMap::new(),
            spectator_cache: HashMap::new(),
            players_spectator_cache: HashMap::new(),
        };
        assert(m@.leaves =~= Map::empty());
        assert(m@.creature_cache =~= Map::empty());
        assert(m@.player_cache =~= Map::empty());
        proof {
            lemma_cache_empty(m@);
        }
        m
    }
}

impl GameMap {
    /// The map's invariant: tiles only on the floors there are, each in a
    /// block with creature lists, and each cached spectator list is what a
    /// fresh search finds.
    pub closed spec fn wf(&self) -> bool {
        &&& self.tiles_placed()
        &&& caches_fresh(self@)
    }

    /// Tiles are kept only for the floors there are, each in a block with
    /// creature lists.
    pub closed spec fn tiles_placed(&self) -> bool {
        forall|k: u64| #[trigger]
            self.tiles@.contains_key(k) ==> k % 256 < MAP_MAX_LAYERS && k / 16777216 < 65536
                && self.leaves@.contains_key(block_key(key_position(k).x, key_position(k).y))
    }

    /// The tile at `position`, if there is one.
    pub fn get_tile(&self, position: Position) -> (r: Option<&Tile>)
        ensures
            match r {
                Some(t) => tile_at(self@, position) == Some(t@),
                None => tile_at(self@, position) is None,
            },
    {
        if position.z >= MAP_MAX_LAYERS {
            return None;
        }
        let k = pos_key_of(position);
        self.tiles.get(&k)
    }

    fn push_leaf(&self, out: &mut Vec<CreatureId>, x: u16, y: u16, only_players: bool)
        ensures
            final(out)@ == old(out)@ + leaf_list(self@.leaves, x, y, only_players),
    {
        let b = block_key_of(x, y);
        match self.leaves.get(&b) {
            Some(leaf) => {
                let list = if only_players {
                    &leaf.player_list
                } else {
                    &leaf.creature_list
                };
                let mut i: usize = 0;
                while i < list.len()
                    invariant
                        i <= list@.len(),
                        out@ == old(out)@ + list@.take(i as int),
                    decreases list@.len() - i,
                {
                    out.push(list[i]);
                    i = i + 1;
                    assert(out@ =~= old(out)@ + list@.take(i as int));
                }
                assert(list@.take(list@.len() as int) =~= list@);
            },
            None => {
                assert(old(out)@ + Seq::<CreatureId>::empty() =~= old(out)@);
            },
        }
    }

    fn get_spectators_internal(
        &self,
        center_pos: Position,
        min_range_x: i32,
        max_range_x: i32,
        min_range_y: i32,
        max_range_y: i32,
        min_range_z: i32,
        max_range_z: i32,
        only_players: bool,
    ) -> (r: Vec<CreatureId>)
        requires
            search_fits(
                center_pos,
                min_range_x as int,
                max_range_x as int,
                min_range_y as int,
                max_range_y as int,
                min_range_z as int,
                max_range_z as int,
            ),
        ensures
            r@ == spectators_in(
                self@.leaves,
                center_pos,
                min_range_x as int,
                max_range_x as int,
                min_range_y as int,
                max_range_y as int,
                min_range_z as int,
                max_range_z as int,
                only_players,
            ),
    {
        proof {
            reveal(spectators_in);
        }
        let mut spectators: Vec<CreatureId> = Vec::new();
        let min_y = center_pos.y as i32 + min_range_y;
        let min_x = center_pos.x as i32 + min_range_x;
        let max_y = center_pos.y as i32 + max_range_y;
        let max_x = center_pos.x as i32 + max_range_x;
        let min_offset = center_pos.z as i32 - max_range_z;
        let x1 = clamp_coord(min_x + min_offset);
        let y1 = clamp_coord(min_y + min_offset);
        let max_offset = center_pos.z as i32 - min_range_z;
        let x2 = clamp_coord(max_x + max_offset);
        let y2 = clamp_coord(max_y + max_offset);
        let startx1 = x1 - (x1 % FLOOR_SIZE);
        let starty1 = y1 - (y1 % FLOOR_SIZE);
        let endx2 = x2 - (x2 % FLOOR_SIZE);
        let endy2 = y2 - (y2 % FLOOR_SIZE);
        let ghost leaves = self@.leaves;
        let ghost total = area_spectators(
            leaves,
            startx1 as int,
            endx2 as int,
            starty1 as int,
            endy2 as int,
            only_players,
        );
        assert(spectators@ + total =~= total);
        let mut cur_y = starty1;
        while cur_y <= endy2
            invariant
                leaves == self@.leaves,
                endx2 <= 0xFFF8,
                endy2 <= 0xFFF8,
                spectators@ + area_spectators(
                    leaves,
                    startx1 as int,
                    endx2 as int,
                    cur_y as int,
                    endy2 as int,
                    only_players,
                ) == total,
            decreases endy2 + 8 - cur_y,
        {
            let mut cur_x = startx1;
            let ghost rest = area_spectators(
                leaves,
                startx1 as int,
                endx2 as int,
                cur_y + 8,
                endy2 as int,
                only_players,
            );
            assert(spectators@ + row_spectators(leaves, cur_x as int, endx2 as int, cur_y as int, only_players)
                + rest =~= total);
            while cur_x <= endx2
                invariant
                    leaves == self@.leaves,
                    endx2 <= 0xFFF8,
                    cur_y <= endy2 <= 0xFFF8,
                    spectators@ + row_spectators(
                        leaves,
                        cur_x as int,
                        endx2 as int,
                        cur_y as int,
                        only_players,
                    ) + rest == total,
                decreases endx2 + 8 - cur_x,
            {
                let ghost before = spectators@;
                self.push_leaf(&mut spectators, cur_x, cur_y, only_players);
                let next = cur_x.saturating_add(FLOOR_SIZE);
                proof {
                    assert(row_spectators(leaves, next as int, endx2 as int, cur_y as int, only_players)
                        == row_spectators(leaves, cur_x + 8, endx2 as int, cur_y as int, only_players));
                    assert(spectators@ + row_spectators(
                        leaves,
                        next as int,
                        endx2 as int,
                        cur_y as int,
                        only_players,
                    ) + rest =~= before + row_spectators(
                        leaves,
                        cur_x as int,
                        endx2 as int,
                        cur_y as int,
                        only_players,
                    ) + rest);
                }
                cur_x = next;
            }
            let next_y = cur_y.saturating_add(FLOOR_SIZE);
            proof {
                assert(spectators@ + Seq::<CreatureId>::empty() =~= spectators@);
                assert(area_spectators(leaves, startx1 as int, endx2 as int, next_y as int, endy2 as int, only_players)
                    == rest);
            }
            cur_y = next_y;
        }
        assert(spectators@ + Seq::<CreatureId>::empty() =~= spectators@);
        spectators
    }

    /// The creatures (or only the players) around `center_pos`: those in the
    /// blocks of the search area (see `spectator_result`); a default search
    /// is answered from, or else stored in, the cache. Where the cache holds
    /// no such answer, the result is a fresh search; the one exception is a
    /// default search for players answered from the list of all creatures.
    pub fn get_spectators(
        &mut self,
        center_pos: Position,
        multifloor: bool,
        only_players: bool,
        min_range_x: i32,
        max_range_x: i32,
        min_range_y: i32,
        max_range_y: i32,
    ) -> (r: Vec<CreatureId>)
        requires
            old(self).wf(),
            spectator_args_fit(center_pos, multifloor, min_range_x, max_range_x, min_range_y, max_range_y),
        ensures
            final(self).wf(),
            r@ == spectator_result(
                old(self)@,
                center_pos,
                multifloor,
                only_players,
                min_range_x,
                max_range_x,
                min_range_y,
                max_range_y,
            ),
            final(self)@ == spectator_state(
                old(self)@,
                center_pos,
                multifloor,
                only_players,
                min_range_x,
                max_range_x,
                min_range_y,
                max_range_y,
            ),
            center_pos.z < MAP_MAX_LAYERS && !(is_default_search(
                min_range_x,
                max_range_x,
                min_range_y,
                max_range_y,
                multifloor,
            ) && only_players && !old(self)@.player_cache.contains_key(pos_key(center_pos))
                && old(self)@.creature_cache.contains_key(pos_key(center_pos))) ==> r@
                == fresh_spectators(
                old(self)@.leaves,
                center_pos,
                multifloor,
                only_players,
                min_range_x,
                max_range_x,
                min_range_y,
                max_range_y,
            ),
    {
        if center_pos.z >= MAP_MAX_LAYERS {
            return Vec::new();
        }
        let min_rx: i32 = if min_range_x == 0 {
            -MAX_VIEWPORT_X_SPECTATOR
        } else {
            -min_range_x
        };
        let max_rx: i32 = if max_range_x == 0 {
            MAX_VIEWPORT_X_SPECTATOR
        } else {
            max_range_x
        };
        let min_ry: i32 = if min_range_y == 0 {
            -MAX_VIEWPORT_Y_SPECTATOR
        } else {
            -min_range_y
        };
        let max_ry: i32 = if max_range_y == 0 {
            MAX_VIEWPORT_Y_SPECTATOR
        } else {
            max_range_y
        };
        let is_default_range = min_rx == -MAX_VIEWPORT_X_SPECTATOR && max_rx == MAX_VIEWPORT_X_SPECTATOR
            && min_ry == -MAX_VIEWPORT_Y_SPECTATOR && max_ry == MAX_VIEWPORT_Y_SPECTATOR && multifloor;
        let k = pos_key_of(center_pos);
        proof {
            lemma_key_position(center_pos);
            lemma_cache_hit(old(self)@, center_pos);
        }
        if is_default_range {
            if only_players {
                match self.players_spectator_cache.get(&k) {
                    Some(cached) => {
                        return copy_ids(cached);
                    },
                    None => {},
                }
            }
            match self.spectator_cache.get(&k) {
                Some(cached) => {
                    return copy_ids(cached);
                },
                None => {},
            }
        }
        let z = center_pos.z as i32;
        let (min_range_z, max_range_z): (i32, i32) = if multifloor {
            if z > 7 {
                (if z - 2 > 0 {
                    z - 2
                } else {
                    0
                }, if z + 2 < 15 {
                    z + 2
                } else {
                    15
                })
            } else if z == 6 {
                (0, 8)
            } else if z == 7 {
                (0, 9)
            } else {
                (0, 7)
            }
        } else {
            (z, z)
        };
        let result = self.get_spectators_internal(
            center_pos,
            min_rx,
            max_rx,
            min_ry,
            max_ry,
            min_range_z,
            max_range_z,
            only_players,
        );
        let ghost v0 = self@;
        if is_default_range {
            proof {
                lemma_cache_store(v0, center_pos, only_players);
            }
            let stored = copy_ids(&result);
            if only_players {
                self.players_spectator_cache.insert(k, stored);
            } else {
                self.spectator_cache.insert(k, stored);
            }
        }
        proof {
            if !is_default_range {
                lemma_cache_same(v0, self@);
            }
            assert(self@.creature_cache =~= spectator_state(
                old(self)@,
                center_pos,
                multifloor,
                only_players,
                min_range_x,
                max_range_x,
                min_range_y,
                max_range_y,
            ).creature_cache);
            assert(self@.player_cache =~= spectator_state(
                old(self)@,
                center_pos,
                multifloor,
                only_players,
                min_range_x,
                max_range_x,
                min_range_y,
                max_range_y,
            ).player_cache);
        }
        result
    }

    fn tile_arrival(&mut self, p: Position, id: CreatureId)
        requires
            old(self).tiles_placed(),
        ensures
            final(self).tiles_placed(),
            final(self)@ == with_tile_arrival(old(self)@, p, id),
    {
        if p.z >= MAP_MAX_LAYERS {
            return;
        }
        let k = pos_key_of(p);
        let ghost v0 = self@;
        match self.tiles.remove(&k) {
            Some(mut t) => {
                t.add_creature(id);
                let ghost tv = t@;
                self.tiles.insert(k, t);
                proof {
                    assert(self@.tiles =~= v0.tiles.insert(k, tv));
                    assert(self@.leaves =~= v0.leaves);
                    assert(self@.creature_cache =~= v0.creature_cache);
                    assert(self@.player_cache =~= v0.player_cache);
                }
            },
            None => {
                proof {
                    assert(self.tiles@ =~= old(self).tiles@.remove(k));
                    assert(self.tiles@ =~= old(self).tiles@);
                }
            },
        }
    }

    fn tile_departure(&mut self, p: Position, id: CreatureId)
        requires
            old(self).tiles_placed(),
        ensures
            final(self).tiles_placed(),
            final(self)@ == with_tile_departure(old(self)@, p, id),
    {
        if p.z >= MAP_MAX_LAYERS {
            return;
        }
        let k = pos_key_of(p);
        let ghost v0 = self@;
        match self.tiles.remove(&k) {
            Some(mut t) => {
                t.remove_creature(id);
                let ghost tv = t@;
                self.tiles.insert(k, t);
                proof {
                    assert(self@.tiles =~= v0.tiles.insert(k, tv));
                    assert(self@.leaves =~= v0.leaves);
                    assert(self@.creature_cache =~= v0.creature_cache);
                    assert(self@.player_cache =~= v0.player_cache);
                }
            },
            None => {
                proof {
                    assert(self.tiles@ =~= old(self).tiles@.remove(k));
                    assert(self.tiles@ =~= old(self).tiles@);
                }
            },
        }
    }

    fn block_arrival(&mut self, p: Position, id: CreatureId, is_player: bool)
        requires
            old(self).tiles_placed(),
        ensures
            final(self).tiles_placed(),
            final(self)@ == with_block_arrival(old(self)@, p, id, is_player),
    {
        let b = block_key_of(p.x, p.y);
        let ghost v0 = self@;
        match self.leaves.remove(&b) {
            Some(mut leaf) => {
                leaf.add_creature(id, is_player);
                let ghost lv = leaf@;
                self.leaves.insert(b, leaf);
                proof {
                    assert(self@.tiles =~= v0.tiles);
                    assert(self@.leaves =~= v0.leaves.insert(b, lv));
                    assert(self@.creature_cache =~= v0.creature_cache);
                    assert(self@.player_cache =~= v0.player_cache);
                }
            },
            None => {
                proof {
                    assert(self.leaves@ =~= old(self).leaves@.remove(b));
                    assert(self.leaves@ =~= old(self).leaves@);
                }
            },
        }
    }

    fn block_departure(&mut self, p: Position, id: CreatureId, is_player: bool)
        requires
            old(self).tiles_placed(),
        ensures
            final(self).tiles_placed(),
            final(self)@ == with_block_departure(old(self)@, p, id, is_player),
    {
        let b = block_key_of(p.x, p.y);
        let ghost v0 = self@;
        match self.leaves.remove(&b) {
            Some(mut leaf) => {
                leaf.remove_creature(id, is_player);
                let ghost lv = leaf@;
                self.leaves.insert(b, leaf);
                proof {
                    assert(self@.tiles =~= v0.tiles);
                    assert(self@.leaves =~= v0.leaves.insert(b, lv));
                    assert(self@.creature_cache =~= v0.creature_cache);
                    assert(self@.player_cache =~= v0.player_cache);
                }
            },
            None => {
                proof {
                    assert(self.leaves@ =~= old(self).leaves@.remove(b));
                    assert(self.leaves@ =~= old(self).leaves@);
                }
            },
        }
    }

    /// Empties the cache of all creatures around positions.
    pub fn clear_spectator_cache(&mut self)
        requires
            old(self).wf(),
        ensures
            final(self).wf(),
            final(self)@ == (MapView { creature_cache: Map::empty(), ..old(self)@ }),
    {
        self.spectator_cache.clear();
        proof {
            reveal(caches_fresh);
            assert(self@.creature_cache =~= Map::empty());
            assert(self@.tiles =~= old(self)@.tiles);
            assert(self@.leaves =~= old(self)@.leaves);
            assert(self@.player_cache =~= old(self)@.player_cache);
        }
    }

    /// Empties the cache of players around positions.
    pub fn clear_players_spectator_cache(&mut self)
        requires
            old(self).wf(),
        ensures
            final(self).wf(),
            final(self)@ == (MapView { player_cache: Map::empty(), ..old(self)@ }),
    {
        self.players_spectator_cache.clear();
        proof {
            reveal(caches_fresh);
            assert(self@.player_cache =~= Map::empty());
            assert(self@.tiles =~= old(self)@.tiles);
            assert(self@.leaves =~= old(self)@.leaves);
            assert(self@.creature_cache =~= old(self)@.creature_cache);
        }
    }

    /// Creature `creature_id` arrives at `position`: on its tile, and in the
    /// lists of its block; the cached searches are dropped (the players'
    /// ones only for a player).
    pub fn add_creature_to_tile(&mut self, position: Position, creature_id: CreatureId, is_player: bool)
        requires
            old(self).wf(),
        ensures
            final(self).wf(),
            final(self)@ == with_caches_cleared(
                with_block_arrival(
                    with_tile_arrival(old(self)@, position, creature_id),
                    position,
                    creature_id,
                    is_player,
                ),
                is_player,
            ),
    {
        proof {
            reveal(caches_fresh);
        }
        self.tile_arrival(position, creature_id);
        self.block_arrival(position, creature_id, is_player);
        let ghost v1 = self@;
        self.spectator_cache.clear();
        if is_player {
            self.players_spectator_cache.clear();
        }
        proof {
            assert(self@.creature_cache =~= Map::empty());
            assert(self@.tiles =~= v1.tiles);
            assert(self@.leaves =~= v1.leaves);
            if is_player {
                assert(self@.player_cache =~= Map::empty());
            } else {
                assert(self@.player_cache =~= v1.player_cache);
                assert(self@.leaves.dom() =~= old(self)@.leaves.dom());
                lemma_player_cache_kept(old(self)@, self@);
            }
        }
    }

    /// Creature `creature_id` leaves `position`: its tile, and the lists of
    /// its block; the cached searches are dropped (the players' ones only for
    /// a player).
    pub fn remove_creature_from_tile(&mut self, position: Position, creature_id: CreatureId, is_player: bool)
        requires
            old(self).wf(),
        ensures
            final(self).wf(),
            final(self)@ == with_caches_cleared(
                with_block_departure(
                    with_tile_departure(old(self)@, position, creature_id),
                    position,
                    creature_id,
                    is_player,
                ),
                is_player,
            ),
    {
        proof {
            reveal(caches_fresh);
        }
        self.tile_departure(position, creature_id);
        self.block_departure(position, creature_id, is_player);
        let ghost v1 = self@;
        self.spectator_cache.clear();
        if is_player {
            self.players_spectator_cache.clear();
        }
        proof {
            assert(self@.creature_cache =~= Map::empty());
            assert(self@.tiles =~= v1.tiles);
            assert(self@.leaves =~= v1.leaves);
            if is_player {
                assert(self@.player_cache =~= Map::empty());
            } else {
                assert(self@.player_cache =~= v1.player_cache);
                assert(self@.leaves.dom() =~= old(self)@.leaves.dom());
                lemma_player_cache_kept(old(self)@, self@);
            }
        }
    }

    /// Creature `creature_id` moves from `old_pos` to `new_pos` (see
    /// `with_move`).
    pub fn move_creature_on_map(
        &mut self,
        old_pos: Position,
        new_pos: Position,
        creature_id: CreatureId,
        is_player: bool,
    )
        requires
            old(self).wf(),
        ensures
            final(self).wf(),
            final(self)@ == with_move(old(self)@, old_pos, new_pos, creature_id, is_player),
    {
        proof {
            reveal(caches_fresh);
        }
        self.tile_departure(old_pos, creature_id);
        self.tile_arrival(new_pos, creature_id);
        let ob = block_key_of(old_pos.x, old_pos.y);
        let nb = block_key_of(new_pos.x, new_pos.y);
        let has_old = self.leaves.contains_key(&ob);
        let has_new = self.leaves.contains_key(&nb);
        let same = if has_old && has_new {
            ob == nb
        } else {
            !has_old && !has_new
        };
        let ghost v2 = self@;
        if !same {
            if has_old {
                self.block_departure(old_pos, creature_id, is_player);
            } else {
                assert(with_block_departure(v2, old_pos, creature_id, is_player) == v2);
            }
            let ghost v25 = self@;
            if has_new {
                self.block_arrival(new_pos, creature_id, is_player);
            } else {
                assert(with_block_arrival(v25, new_pos, creature_id, is_player) == v25);
            }
        }
        let ghost v3 = self@;
        self.spectator_cache.clear();
        if is_player {
            self.players_spectator_cache.clear();
        }
        proof {
            assert(self@.creature_cache =~= Map::empty());
            assert(self@.tiles =~= v3.tiles);
            assert(self@.leaves =~= v3.leaves);
            if is_player {
                assert(self@.player_cache =~= Map::empty());
            } else {
                assert(self@.player_cache =~= v3.player_cache);
                assert(self@.leaves.dom() =~= old(self)@.leaves.dom());
                lemma_player_cache_kept(old(self)@, self@);
            }
        }
    }

    pub(crate) fn has_flag_at(&self, p: Position, flag: u32) -> (r: bool)
        ensures
            r == tile_has(self@, p, flag),
    {
        match self.get_tile(p) {
            Some(t) => t.has_flag(flag),
            None => false,
        }
    }

    fn position_at(&self, p: Position) -> (r: Option<Position>)
        ensures
            r == tile_position(self@, p),
    {
        match self.get_tile(p) {
            Some(t) => Some(t.get_position()),
            None => None,
        }
    }

    fn walkable(&self, p: Position) -> (r: bool)
        ensures
            r == walkable_at(self@, p),
    {
        match self.get_tile(p) {
            Some(t) => t.is_walkable(),
            None => false,
        }
    }

    /// Where a creature stepping on `position` ends up after a floor change
    /// (see `floor_change_destination`).
    pub fn resolve_floor_change_destination(&self, position: Position) -> (r: Option<Position>)
        ensures
            r == floor_change_destination(self@, position),
    {
        if self.get_tile(position).is_none() {
            return None;
        }
        if self.has_flag_at(position, TILESTATE_FLOORCHANGE_DOWN) {
            let mut x = position.x;
            let mut y = position.y;
            let z = position.z.wrapping_add(1);
            if self.has_flag_at(Position { x, y: y.wrapping_sub(1), z }, TILESTATE_FLOORCHANGE_SOUTH_ALT) {
                y = y.wrapping_sub(2);
                return self.position_at(Position { x, y, z });
            }
            if self.has_flag_at(Position { x: x.wrapping_sub(1), y, z }, TILESTATE_FLOORCHANGE_EAST_ALT) {
                x = x.wrapping_sub(2);
                return self.position_at(Position { x, y, z });
            }
            let below = Position { x, y, z };
            if self.get_tile(below).is_none() {
                return None;
            }
            if self.has_flag_at(below, TILESTATE_FLOORCHANGE_NORTH) {
                y = y.wrapping_add(1);
            }
            if self.has_flag_at(below, TILESTATE_FLOORCHANGE_SOUTH) {
                y = y.wrapping_sub(1);
            }
            if self.has_flag_at(below, TILESTATE_FLOORCHANGE_SOUTH_ALT) {
                y = y.wrapping_sub(2);
            }
            if self.has_flag_at(below, TILESTATE_FLOORCHANGE_EAST) {
                x = x.wrapping_sub(1);
            }
            if self.has_flag_at(below, TILESTATE_FLOORCHANGE_EAST_ALT) {
                x = x.wrapping_sub(2);
            }
            if self.has_flag_at(below, TILESTATE_FLOORCHANGE_WEST) {
                x = x.wrapping_add(1);
            }
            return self.position_at(Position { x, y, z });
        }
        if self.has_flag_at(position, TILESTATE_FLOORCHANGE) {
            let mut x = position.x;
            let mut y = position.y;
            let z = position.z.wrapping_sub(1);
            if self.has_flag_at(position, TILESTATE_FLOORCHANGE_NORTH) {
                y = y.wrapping_sub(1);
            }
            if self.has_flag_at(position, TILESTATE_FLOORCHANGE_SOUTH) {
                y = y.wrapping_add(1);
            }
            if self.has_flag_at(position, TILESTATE_FLOORCHANGE_EAST) {
                x = x.wrapping_add(1);
            }
            if self.has_flag_at(position, TILESTATE_FLOORCHANGE_WEST) {
                x = x.wrapping_sub(1);
            }
            if self.has_flag_at(position, TILESTATE_FLOORCHANGE_SOUTH_ALT) {
                y = y.wrapping_add(2);
            }
            if self.has_flag_at(position, TILESTATE_FLOORCHANGE_EAST_ALT) {
                x = x.wrapping_add(2);
            }
            return self.position_at(Position { x, y, z });
        }
        Some(position)
    }

    /// Where a creature climbing from `position` arrives one floor up: the
    /// first walkable square of `upstairs_candidates`, else the square south
    /// of it; nothing from the top floor.
    pub fn move_upstairs_position(&self, position: Position) -> (r: Option<Position>)
        ensures
            position.z == 0 ==> r is None,
            position.z > 0 ==> r == Some(
                first_walkable(self@, upstairs_candidates(position, (position.z - 1) as u8), 0),
            ),
    {
        if position.z == 0 {
            return None;
        }
        let upper_z = position.z - 1;
        let ghost cs = upstairs_candidates(position, upper_z);
        let default = Position { x: position.x, y: position.y.wrapping_add(1), z: upper_z };
        if self.walkable(default) {
            return Some(default);
        }
        let x = position.x;
        let y = position.y;
        let candidates: [Position; 7] = [
            Position { x, y: y.wrapping_sub(1), z: upper_z },
            Position { x: x.wrapping_add(1), y, z: upper_z },
            Position { x: x.wrapping_sub(1), y, z: upper_z },
            Position { x: x.wrapping_sub(1), y: y.wrapping_add(1), z: upper_z },
            Position { x: x.wrapping_add(1), y: y.wrapping_add(1), z: upper_z },
            Position { x: x.wrapping_sub(1), y: y.wrapping_sub(1), z: upper_z },
            Position { x: x.wrapping_add(1), y: y.wrapping_sub(1), z: upper_z },
        ];
        let mut i: usize = 0;
        while i < 7
            invariant
                i <= 7,
                position.z > 0,
                upper_z == position.z - 1,
                cs == upstairs_candidates(position, upper_z),
                forall|j: int| 0 <= j < 7 ==> candidates@[j] == cs[j + 1],
                first_walkable(self@, cs, 0) == first_walkable(self@, cs, i + 1),
            decreases 7 - i,
        {
            let candidate = candidates[i];
            if self.walkable(candidate) {
                return Some(candidate);
            }
            i = i + 1;
        }
        Some(default)
    }

    /// The map's houses.
    pub closed spec fn house_registry(&self) -> Houses {
        self.houses
    }

    /// The map's houses.
    pub fn get_houses(&self) -> (h: &Houses)
        ensures
            *h == self.house_registry(),
    {
        &self.houses
    }

    /// The temple position of town `town_id`, if there is such a town.
    pub fn get_town_temple_pos(&self, town_id: u32) -> (r: Option<Position>)
        ensures
            r == (if self@.towns.contains_key(town_id) {
                Some(self@.towns[town_id].temple_pos)
            } else {
                None
            }),
    {
        match self.towns.get(&town_id) {
            Some(t) => Some(t.temple_pos),
            None => None,
        }
    }

    /// Puts `tile` at `position` (nothing happens below the last floor); the
    /// block of the position gets its creature lists if it had none.
    pub fn set_tile(&mut self, position: Position, tile: Tile)
        requires
            old(self).wf(),
        ensures
            final(self).wf(),
            position.z >= MAP_MAX_LAYERS ==> final(self)@ == old(self)@,
            position.z < MAP_MAX_LAYERS ==> final(self)@ == (MapView {
                tiles: old(self)@.tiles.insert(pos_key(position), tile@),
                leaves: if old(self)@.leaves.contains_key(block_key(position.x, position.y)) {
                    old(self)@.leaves
                } else {
                    old(self)@.leaves.insert(
                        block_key(position.x, position.y),
                        LeafView { creatures: Seq::empty(), players: Seq::empty() },
                    )
                },
                ..old(self)@
            }),
    {
        proof {
            reveal(caches_fresh);
        }
        if position.z >= MAP_MAX_LAYERS {
            return;
        }
        let b = block_key_of(position.x, position.y);
        let ghost v0 = self@;
        if !self.leaves.contains_key(&b) {
            self.leaves.insert(b, Leaf { creature_list: Vec::new(), player_list: Vec::new() });
        }
        let ghost v1 = self@;
        proof {
            assert(v1.leaves =~= (if v0.leaves.contains_key(b) {
                v0.leaves
            } else {
                v0.leaves.insert(b, LeafView { creatures: Seq::empty(), players: Seq::empty() })
            }));
            assert(v1.creature_cache =~= v0.creature_cache);
            assert(v1.player_cache =~= v0.player_cache);
            assert forall|c: Position, only: bool| #[trigger]
                default_spectators(v1.leaves, c, only) == default_spectators(v0.leaves, c, only) by {
                reveal(spectators_in);
                let (min_rz, max_rz) = floor_search(c.z as int, true);
                let (sx, ex, sy, ey) = search_area(c, -11, 11, -11, 11, min_rz, max_rz);
                if !v0.leaves.contains_key(b) {
                    lemma_empty_leaf_area(v0.leaves, v1.leaves, b, sx, ex, sy, ey, only);
                }
            }
        }
        let k = pos_key_of(position);
        self.tiles.insert(k, tile);
        proof {
            lemma_key_position(position);
            let v2 = self@;
            assert(v2.leaves =~= v1.leaves);
            assert(v2.creature_cache =~= v1.creature_cache);
            assert(v2.player_cache =~= v1.player_cache);
            assert(v2.tiles =~= v0.tiles.insert(pos_key(position), tile@));
        }
    }

    /// The tile at `position`, to change in place.
    pub fn get_tile_mut(&mut self, position: Position) -> (r: Option<&mut Tile>)
        requires
            old(self).wf(),
        ensures
            final(self).wf(),
            r matches Some(t) ==> tile_at(old(self)@, position) == Some(t@),
            r matches Some(t) ==> final(self)@ == (MapView {
                tiles: old(self)@.tiles.insert(pos_key(position), final(t)@),
                ..old(self)@
            }),
            r is None ==> tile_at(old(self)@, position) is None && final(self)@ == old(self)@,
    {
        proof {
            broadcast use lemma_cache_frame;
        }
        if position.z >= MAP_MAX_LAYERS {
            return None;
        }
        let k = pos_key_of(position);
        match self.tiles.entry(k) {
            Entry::Occupied(o) => Some(o.into_mut()),
            Entry::Vacant(v) => {
                proof {
                    broadcast use vstd::std_specs::hash::axiom_has_resolved_vacant_entry;
                    assert(has_resolved(v));
                    assert(old(self).tiles@.remove(k) =~= old(self).tiles@);
                }
                None
            },
        }
    }

    /// Takes the tile at `position` off the map.
    pub fn remove_tile(&mut self, position: Position) -> (r: Option<Tile>)
        requires
            old(self).wf(),
        ensures
            final(self).wf(),
            match r {
                Some(t) => tile_at(old(self)@, position) == Some(t@),
                None => tile_at(old(self)@, position) is None,
            },
            r is None ==> final(self)@ == old(self)@,
            r is Some ==> final(self)@ == (MapView {
                tiles: old(self)@.tiles.remove(pos_key(position)),
                ..old(self)@
            }),
    {
        if position.z >= MAP_MAX_LAYERS {
            return None;
        }
        let k = pos_key_of(position);
        let ghost v0 = self@;
        let r = self.tiles.remove(&k);
        proof {
            reveal(caches_fresh);
            let v1 = self@;
            assert(v1.leaves =~= v0.leaves);
            assert(v1.creature_cache =~= v0.creature_cache);
            assert(v1.player_cache =~= v0.player_cache);
            if r is None {
                assert(v1.tiles =~= v0.tiles);
            } else {
                assert(v1.tiles =~= v0.tiles.remove(k));
            }
        }
        r
    }
}

} // verus!
