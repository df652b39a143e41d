//! Path finding on one floor: a best-first search over walkable tiles from
//! a start towards squares within a distance band of a target.
use vstd::prelude::*;
use std::collections::{HashMap, HashSet};
use crate::map::{direction_delta, Direction, Position};
use crate::map::grid::{tile_at, walkable_at, GameMap, MapView};

verus! {

/// The cost of a straight step.
pub const MAP_NORMALWALKCOST: u32 = 10;
/// The cost of a diagonal step.
pub const MAP_DIAGONALWALKCOST: u32 = 25;
/// How many squares a full search closes at most.
pub const MAX_PATHFIND_NODES: usize = 512;

/// The square one step from `p` in direction `d`, on the same floor.
pub open spec fn step(p: Position, d: Direction) -> Position {
    Position {
        x: (p.x + direction_delta(d).0) as u16,
        y: (p.y + direction_delta(d).1) as u16,
        z: p.z,
    }
}

/// Where the steps of `dirs`, taken from the last to the first, lead from `p`.
pub open spec fn walk(p: Position, dirs: Seq<Direction>) -> Position
    decreases dirs.len(),
{
    if dirs.len() == 0 {
        p
    } else {
        walk(step(p, dirs.last()), dirs.drop_last())
    }
}

/// Whether each square the steps of `dirs` (from the last to the first)
/// reach from `p` is on the map and walkable.
pub open spec fn walk_ok(v: MapView, p: Position, dirs: Seq<Direction>) -> bool
    decreases dirs.len(),
{
    if dirs.len() == 0 {
        true
    } else {
        let q = step(p, dirs.last());
        &&& 0 <= p.x + direction_delta(dirs.last()).0 <= 0xFFFF
        &&& 0 <= p.y + direction_delta(dirs.last()).1 <= 0xFFFF
        &&& walkable_at(v, q)
        &&& walk_ok(v, q, dirs.drop_last())
    }
}

/// The larger of the distances in x and in y.
pub open spec fn chebyshev(a: Position, b: Position) -> int {
    let dx = if a.x >= b.x {
        a.x - b.x
    } else {
        b.x - a.x
    };
    let dy = if a.y >= b.y {
        a.y - b.y
    } else {
        b.y - a.y
    };
    if dx >= dy {
        dx
    } else {
        dy
    }
}

/// The key of a square of the floor searched.
pub open spec fn square_key(x: u16, y: u16) -> u32 {
    (x * 65536 + y) as u32
}

/// The square of the floor `z` with key `k`.
pub open spec fn key_square(k: u32, z: u8) -> Position {
    Position { x: (k / 65536) as u16, y: (k % 65536) as u16, z }
}

/// A searched square: its cost from the start, its cost with the estimate
/// to the target, and the square it was reached from.
#[derive(Clone, Copy)]
pub struct PathNode {
    pub g: u32,
    pub f: u32,
    pub parent: Option<u32>,
}

/// Whether the open entry `a` (cost, x, y) comes before `b`.
pub open spec fn entry_le(a: (u32, u16, u16), b: (u32, u16, u16)) -> bool {
    a.0 < b.0 || (a.0 == b.0 && (a.1 < b.1 || (a.1 == b.1 && a.2 <= b.2)))
}

/// Whether the open entry `a` comes strictly before `b`.
pub open spec fn entry_lt(a: (u32, u16, u16), b: (u32, u16, u16)) -> bool {
    a.0 < b.0 || (a.0 == b.0 && (a.1 < b.1 || (a.1 == b.1 && a.2 < b.2)))
}

/// The index of the first least entry among the first `n` of `s`.
pub open spec fn min_index_upto(s: Seq<(u32, u16, u16)>, n: int) -> int
    decreases n,
{
    if n <= 1 {
        0
    } else {
        let m = min_index_upto(s, n - 1);
        if entry_lt(s[n - 1], s[m]) {
            n - 1
        } else {
            m
        }
    }
}

/// The index of the first least entry of `s`, by cost then x then y.
pub open spec fn min_index(s: Seq<(u32, u16, u16)>) -> int {
    min_index_upto(s, s.len() as int)
}

proof fn lemma_min_index_upto_bounds(s: Seq<(u32, u16, u16)>, n: int)
    requires
        1 <= n <= s.len(),
    ensures
        0 <= min_index_upto(s, n) < n,
    decreases n,
{
    if n > 1 {
        lemma_min_index_upto_bounds(s, n - 1);
    }
}

/// Takes the first entry, by cost then x then y, out of `open`.
fn pop_min(open: &mut Vec<(u32, u16, u16)>) -> (r: (u32, u16, u16))
    requires
        old(open)@.len() > 0,
    ensures
        0 <= min_index(old(open)@) < old(open)@.len(),
        r == old(open)@[min_index(old(open)@)],
        final(open)@ == old(open)@.remove(min_index(old(open)@)),
        exists|i: int|
            0 <= i < old(open)@.len() && old(open)@[i] == r && final(open)@ == old(open)@.remove(i),
        forall|j: int| 0 <= j < old(open)@.len() ==> entry_le(r, #[trigger] old(open)@[j]),
{
    let mut best: usize = 0;
    let mut i: usize = 1;
    while i < open.len()
        invariant
            open@ == old(open)@,
            1 <= i <= open@.len(),
            best < open@.len(),
            best == min_index_upto(open@, i as int),
            forall|j: int| 0 <= j < i ==> entry_le(open@[best as int], #[trigger] open@[j]),
        decreases open@.len() - i,
    {
        let a = open[i];
        let b = open[best];
        if a.0 < b.0 || (a.0 == b.0 && (a.1 < b.1 || (a.1 == b.1 && a.2 < b.2))) {
            best = i;
        }
        i = i + 1;
    }
    proof {
        lemma_min_index_upto_bounds(open@, open@.len() as int);
    }
    open.remove(best)
}

fn key_of(x: u16, y: u16) -> (k: u32)
    ensures
        k == square_key(x, y),
        key_square(k, 0).x == x,
        key_square(k, 0).y == y,
{
    let k = x as u32 * 65536 + y as u32;
    assert(k / 65536 == x as int && k % 65536 == y as int) by (nonlinear_arith)
        requires
            k == x * 65536 + y,
            0 <= y < 65536,
            0 <= x < 65536,
    ;
    k
}

fn abs_diff(a: u16, b: u16) -> (r: u32)
    ensures
        r == (if a >= b {
            a - b
        } else {
            b - a
        }),
{
    if a >= b {
        (a - b) as u32
    } else {
        (b - a) as u32
    }
}

/// Whether `b` is one of the eight squares around `a`.
pub open spec fn neighbours(a: Position, b: Position) -> bool {
    &&& -1 <= b.x - a.x <= 1
    &&& -1 <= b.y - a.y <= 1
    &&& !(b.x == a.x && b.y == a.y)
}

/// The invariant of the search: the start was reached from nowhere; every
/// other reached square was reached from a closed neighbour (closed before
/// it, where it is closed itself) and is walkable; open entries and closed
/// squares are reached squares; costs so far grow by at most 55 for each
/// closed square.
#[verifier::opaque]
spec fn search_inv(
    v: MapView,
    start: Position,
    best: Map<u32, PathNode>,
    closed: Set<u32>,
    rank: Map<u32, int>,
    open: Seq<(u32, u16, u16)>,
) -> bool {
    let sk = square_key(start.x, start.y);
    &&& best.contains_key(sk)
    &&& best[sk].parent is None
    &&& closed.subset_of(best.dom())
    &&& closed.finite()
    &&& closed.len() > 0 ==> closed.contains(sk)
    &&& rank.dom() == closed
    &&& forall|k: u32| #[trigger] closed.contains(k) ==> 0 <= rank[k] < closed.len()
    &&& forall|j: int|
        0 <= j < open.len() ==> best.contains_key(square_key((#[trigger] open[j]).1, open[j].2))
    &&& forall|k: u32| #[trigger] best.contains_key(k) ==> best[k].g <= 55 * closed.len()
    &&& forall|k: u32| #[trigger]
        best.contains_key(k) ==> match best[k].parent {
            None => k == sk,
            Some(p) => {
                &&& k != sk
                &&& closed.contains(p)
                &&& (closed.contains(k) ==> rank[p] < rank[k])
                &&& neighbours(key_square(p, start.z), key_square(k, start.z))
                &&& walkable_at(v, key_square(k, start.z))
            },
        }
}


/// The estimated cost from the square `(x, y)` to `target`.
pub open spec fn estimate(x: u16, y: u16, target: Position) -> int {
    let p = Position { x, y, z: target.z };
    chebyshev(p, target) * MAP_NORMALWALKCOST
}

fn heuristic(x: u16, y: u16, target: Position) -> (h: u32)
    ensures
        h == estimate(x, y, target),
{
    let dx = abs_diff(x, target.x);
    let dy = abs_diff(y, target.y);
    let m = if dx >= dy {
        dx
    } else {
        dy
    };
    m * MAP_NORMALWALKCOST
}

/// The square moved to by a step of `(dx, dy)` from `(x, y)`, if it lies on
/// the map.
fn neighbour_of(x: u16, y: u16, dx: i32, dy: i32) -> (r: Option<(u16, u16)>)
    requires
        -1 <= dx <= 1,
        -1 <= dy <= 1,
    ensures
        match r {
            Some((nx, ny)) => nx == x + dx && ny == y + dy,
            None => !(0 <= x + dx <= 0xFFFF && 0 <= y + dy <= 0xFFFF),
        },
{
    let nx = x as i32 + dx;
    let ny = y as i32 + dy;
    if nx < 0 || ny < 0 || nx > 0xFFFF || ny > 0xFFFF {
        None
    } else {
        Some((nx as u16, ny as u16))
    }
}

proof fn lemma_key_square(x: u16, y: u16, z: u8)
    ensures
        key_square(square_key(x, y), z) == (Position { x, y, z }),
{
    let k = x * 65536 + y;
    assert(k / 65536 == x as int && k % 65536 == y as int) by (nonlinear_arith)
        requires
            k == x * 65536 + y,
            0 <= y < 65536,
            0 <= x < 65536,
    ;
}

proof fn lemma_square_key_injective(a: u16, b: u16, c: u16, d: u16)
    ensures
        square_key(a, b) == square_key(c, d) ==> a == c && b == d,
{
    lemma_key_square(a, b, 0);
    lemma_key_square(c, d, 0);
}

/// The direction of the step from `from` to its neighbour `to`.
fn step_direction(from: Position, to: Position) -> (d: Direction)
    requires
        neighbours(from, to),
        from.z == to.z,
    ensures
        step(from, d) == to,
        d == step_dir(from, to),
        0 <= from.x + direction_delta(d).0 <= 0xFFFF,
        0 <= from.y + direction_delta(d).1 <= 0xFFFF,
{
    let ddx = from.x as i32 - to.x as i32;
    let ddy = from.y as i32 - to.y as i32;
    if ddx == 1 && ddy == 1 {
        Direction::NorthWest
    } else if ddx == -1 && ddy == 1 {
        Direction::NorthEast
    } else if ddx == 1 && ddy == -1 {
        Direction::SouthWest
    } else if ddx == -1 && ddy == -1 {
        Direction::SouthEast
    } else if ddx == 1 {
        Direction::West
    } else if ddx == -1 {
        Direction::East
    } else if ddy == 1 {
        Direction::North
    } else {
        Direction::South
    }
}


/// The search state after reaching the neighbour `(dx, dy)` of the closed
/// square `(cx, cy)` (key `key`, cost `cur_g`): unchanged where the
/// neighbour is off the map, closed, or not walkable, or was recorded with
/// a total cost as low; else the neighbour is recorded as reached from
/// `key` with the step's cost (10 straight, 25 diagonal, 30 more where a
/// creature stands on it) and its estimate added, and opened with that
/// total.
pub open spec fn relaxed(
    v: MapView,
    start: Position,
    target: Position,
    key: u32,
    cx: u16,
    cy: u16,
    cur_g: u32,
    dx: i32,
    dy: i32,
    best: Map<u32, PathNode>,
    open: Seq<(u32, u16, u16)>,
    closed: Set<u32>,
) -> (Map<u32, PathNode>, Seq<(u32, u16, u16)>) {
    let nx = cx + dx;
    let ny = cy + dy;
    if !(0 <= nx <= 0xFFFF && 0 <= ny <= 0xFFFF) {
        (best, open)
    } else {
        let nkey = square_key(nx as u16, ny as u16);
        let npos = Position { x: nx as u16, y: ny as u16, z: start.z };
        if closed.contains(nkey) || !walkable_at(v, npos) {
            (best, open)
        } else {
            let walk: int = if dx == dy || dx == -dy {
                MAP_DIAGONALWALKCOST as int
            } else {
                MAP_NORMALWALKCOST as int
            };
            let crowd: int = if tile_at(v, npos)->0.creature_ids.len() > 0 {
                MAP_NORMALWALKCOST * 3
            } else {
                0
            };
            let ng = cur_g + walk + crowd;
            let nf = ng + estimate(nx as u16, ny as u16, target);
            if best.contains_key(nkey) && best[nkey].f <= nf {
                (best, open)
            } else {
                (
                    best.insert(nkey, PathNode { g: ng as u32, f: nf as u32, parent: Some(key) }),
                    open.push((nf as u32, nx as u16, ny as u16)),
                )
            }
        }
    }
}

/// The step of the neighbour numbered `i` in the order of `expand_square`.
pub open spec fn neighbour_delta(i: int) -> (i32, i32) {
    if i == 0 {
        (-1i32, 0i32)
    } else if i == 1 {
        (0i32, 1i32)
    } else if i == 2 {
        (1i32, 0i32)
    } else if i == 3 {
        (0i32, -1i32)
    } else if i == 4 {
        (-1i32, -1i32)
    } else if i == 5 {
        (1i32, -1i32)
    } else if i == 6 {
        (1i32, 1i32)
    } else {
        (-1i32, 1i32)
    }
}

/// The search state after reaching the first `n` neighbours of the closed
/// square `(cx, cy)`, in the order of `neighbour_delta`.
pub open spec fn expanded(
    v: MapView,
    start: Position,
    target: Position,
    key: u32,
    cx: u16,
    cy: u16,
    cur_g: u32,
    n: nat,
    best: Map<u32, PathNode>,
    open: Seq<(u32, u16, u16)>,
    closed: Set<u32>,
) -> (Map<u32, PathNode>, Seq<(u32, u16, u16)>)
    decreases n,
{
    if n == 0 {
        (best, open)
    } else {
        let (b, o) = expanded(v, start, target, key, cx, cy, cur_g, (n - 1) as nat, best, open, closed);
        let d = neighbour_delta(n - 1);
        relaxed(v, start, target, key, cx, cy, cur_g, d.0, d.1, b, o, closed)
    }
}

/// Reaches the neighbour `(dx, dy)` of the closed square `(cx, cy)`: a
/// walkable square not closed yet is recorded with the step's cost, unless
/// it was recorded with a cost as low, and opened.
fn relax(
    map: &GameMap,
    start: Position,
    target: Position,
    key: u32,
    cx: u16,
    cy: u16,
    cur_g: u32,
    dx: i32,
    dy: i32,
    best: &mut HashMap<u32, PathNode>,
    open: &mut Vec<(u32, u16, u16)>,
    closed: &HashSet<u32>,
    Ghost(rank): Ghost<Map<u32, int>>,
)
    requires
        search_inv(map@, start, old(best)@, closed@, rank, old(open)@),
        key == square_key(cx, cy),
        closed@.contains(key),
        1 <= closed@.len() <= MAX_PATHFIND_NODES,
        cur_g <= 55 * (closed@.len() - 1),
        -1 <= dx <= 1,
        -1 <= dy <= 1,
        !(dx == 0 && dy == 0),
    ensures
        search_inv(map@, start, final(best)@, closed@, rank, final(open)@),
        (final(best)@, final(open)@) == relaxed(
            map@,
            start,
            target,
            key,
            cx,
            cy,
            cur_g,
            dx,
            dy,
            old(best)@,
            old(open)@,
            closed@,
        ),
{
    reveal(search_inv);
    let z = start.z;
    let (nx, ny) = match neighbour_of(cx, cy, dx, dy) {
        Some(n) => n,
        None => {
            return;
        },
    };
    let nkey = key_of(nx, ny);
    if closed.contains(&nkey) {
        return;
    }
    let npos = Position { x: nx, y: ny, z };
    let (walk_cost, creature_cost) = match map.get_tile(npos) {
        Some(tile) => {
            if !tile.has_ground() {
                return;
            }
            if tile.has_flag(crate::map::tile::TILESTATE_BLOCKSOLID) && tile.get_creature_count() > 0 {
                return;
            }
            if tile.has_flag(crate::map::tile::TILESTATE_BLOCKSOLID) {
                return;
            }
            let walk_cost: u32 = if dx == dy || dx == -dy {
                MAP_DIAGONALWALKCOST
            } else {
                MAP_NORMALWALKCOST
            };
            let creature_cost: u32 = if tile.get_creature_count() > 0 {
                MAP_NORMALWALKCOST * 3
            } else {
                0
            };
            (walk_cost, creature_cost)
        },
        None => {
            return;
        },
    };
    let ng = cur_g + walk_cost + creature_cost;
    let nh = heuristic(nx, ny, target);
    let nf = ng + nh;
    match best.get(&nkey) {
        Some(existing) => {
            if existing.f <= nf {
                return;
            }
        },
        None => {},
    }
    proof {
        lemma_key_square(nx, ny, z);
        lemma_key_square(cx, cy, z);
        lemma_square_key_injective(nx, ny, start.x, start.y);
    }
    let ghost best_before = best@;
    let ghost open_before = open@;
    best.insert(nkey, PathNode { g: ng, f: nf, parent: Some(key) });
    open.push((nf, nx, ny));
    proof {
        let sk = square_key(start.x, start.y);
        assert(nkey != sk);
        assert forall|k: u32| #[trigger] best@.contains_key(k) implies best@[k].g <= 55 * closed@.len() by {
            if k != nkey {
                assert(best_before.contains_key(k));
            }
        }
        assert forall|j: int| 0 <= j < open@.len() implies best@.contains_key(
            square_key((#[trigger] open@[j]).1, open@[j].2),
        ) by {
            if j < open@.len() - 1 {
                assert(open@[j] == open_before[j]);
                assert(best_before.contains_key(square_key(open_before[j].1, open_before[j].2)));
            }
        }
        assert(closed@.subset_of(best@.dom()));
    }
}

/// Reaches the eight neighbours of the closed square `(cx, cy)`, in the
/// order west, south, east, north, north-west, north-east, south-east,
/// south-west.
fn expand_square(
    map: &GameMap,
    start: Position,
    target: Position,
    key: u32,
    cx: u16,
    cy: u16,
    cur_g: u32,
    best: &mut HashMap<u32, PathNode>,
    open: &mut Vec<(u32, u16, u16)>,
    closed: &HashSet<u32>,
    Ghost(rank): Ghost<Map<u32, int>>,
)
    requires
        search_inv(map@, start, old(best)@, closed@, rank, old(open)@),
        key == square_key(cx, cy),
        closed@.contains(key),
        1 <= closed@.len() <= MAX_PATHFIND_NODES,
        cur_g <= 55 * (closed@.len() - 1),
    ensures
        search_inv(map@, start, final(best)@, closed@, rank, final(open)@),
        (final(best)@, final(open)@) == expanded(
            map@,
            start,
            target,
            key,
            cx,
            cy,
            cur_g,
            8,
            old(best)@,
            old(open)@,
            closed@,
        ),
{
    let ghost best0 = best@;
    let ghost open0 = open@;
    let table: [(i32, i32); 8] = [(-1, 0), (0, 1), (1, 0), (0, -1), (-1, -1), (1, -1), (1, 1), (-1, 1)];
    let mut i: usize = 0;
    while i < 8
        invariant
            table@ == seq![(-1i32, 0i32), (0i32, 1i32), (1i32, 0i32), (0i32, -1i32), (-1i32, -1i32), (1i32, -1i32), (1i32, 1i32), (-1i32, 1i32)],
            search_inv(map@, start, best@, closed@, rank, open@),
            key == square_key(cx, cy),
            closed@.contains(key),
            1 <= closed@.len() <= MAX_PATHFIND_NODES,
            cur_g <= 55 * (closed@.len() - 1),
            i <= 8,
            (best@, open@) == expanded(
                map@,
                start,
                target,
                key,
                cx,
                cy,
                cur_g,
                i as nat,
                best0,
                open0,
                closed@,
            ),
        decreases 8 - i,
    {
        let (dx, dy) = table[i];
        assert((dx, dy) == neighbour_delta(i as int));
        relax(map, start, target, key, cx, cy, cur_g, dx, dy, best, open, closed, Ghost(rank));
        i = i + 1;
    }
}

proof fn lemma_route_fuel(
    v: MapView,
    start: Position,
    best: Map<u32, PathNode>,
    closed: Set<u32>,
    rank: Map<u32, int>,
    open: Seq<(u32, u16, u16)>,
    k: u32,
    n: nat,
)
    requires
        search_inv(v, start, best, closed, rank, open),
        closed.contains(k),
        n >= rank[k] + 1,
    ensures
        route(best, start.z, k, n) == route(best, start.z, k, (rank[k] + 1) as nat),
    decreases n,
{
    reveal(search_inv);
    if best.contains_key(k) {
        match best[k].parent {
            None => {},
            Some(p) => {
                lemma_route_fuel(v, start, best, closed, rank, open, p, (n - 1) as nat);
                lemma_route_fuel(v, start, best, closed, rank, open, p, rank[k] as nat);
            },
        }
    }
}

/// Follows the squares each was reached from, from `end` back to the
/// start, and lists the steps from the last to the first.
fn trace_back(
    start: Position,
    best: &HashMap<u32, PathNode>,
    Ghost(closed): Ghost<Set<u32>>,
    Ghost(rank): Ghost<Map<u32, int>>,
    Ghost(open): Ghost<Seq<(u32, u16, u16)>>,
    end: u32,
    Ghost(v): Ghost<MapView>,
) -> (dirs: Vec<Direction>)
    requires
        search_inv(v, start, best@, closed, rank, open),
        closed.contains(end),
        closed.len() <= MAX_PATHFIND_NODES,
    ensures
        walk(start, dirs@) == key_square(end, start.z),
        walk_ok(v, start, dirs@),
        dirs@ == route(best@, start.z, end, (MAX_PATHFIND_NODES + 1) as nat),
{
    reveal(search_inv);
    let z = start.z;
    let mut dirs: Vec<Direction> = Vec::new();
    let mut cur = end;
    assert(dirs@ + route(best@, z, cur, (rank[cur] + 1) as nat) =~= route(best@, z, end, (rank[end] + 1) as nat));
    loop
        invariant
            z == start.z,
            search_inv(v, start, best@, closed, rank, open),
            closed.contains(cur),
            walk(key_square(cur, z), dirs@) == key_square(end, z),
            walk_ok(v, key_square(cur, z), dirs@),
            closed.contains(end),
            dirs@ + route(best@, z, cur, (rank[cur] + 1) as nat) == route(
                best@,
                z,
                end,
                (rank[end] + 1) as nat,
            ),
        ensures
            walk(start, dirs@) == key_square(end, z),
            walk_ok(v, start, dirs@),
            dirs@ == route(best@, z, end, (rank[end] + 1) as nat),
        decreases rank[cur],
    {
        proof {
            reveal(search_inv);
        }
        let parent = match best.get(&cur) {
            Some(node) => node.parent,
            None => None,
        };
        match parent {
            None => {
                proof {
                    lemma_key_square(start.x, start.y, z);
                    assert(route(best@, z, cur, (rank[cur] + 1) as nat) =~= Seq::<Direction>::empty());
                    assert(dirs@ + Seq::<Direction>::empty() =~= dirs@);
                }
                break;
            },
            Some(p) => {
                let from = Position { x: (p / 65536) as u16, y: (p % 65536) as u16, z };
                let to = Position { x: (cur / 65536) as u16, y: (cur % 65536) as u16, z };
                let d = step_direction(from, to);
                let ghost before = dirs@;
                dirs.push(d);
                proof {
                    assert(dirs@.drop_last() =~= before);
                    lemma_route_fuel(v, start, best@, closed, rank, open, p, rank[cur] as nat);
                    assert(route(best@, z, cur, (rank[cur] + 1) as nat) == seq![d] + route(
                        best@,
                        z,
                        p,
                        rank[cur] as nat,
                    ));
                    assert(dirs@ + route(best@, z, p, (rank[p] + 1) as nat) =~= before + route(
                        best@,
                        z,
                        cur,
                        (rank[cur] + 1) as nat,
                    ));
                }
                cur = p;
            },
        }
    }
    proof {
        reveal(search_inv);
        lemma_route_fuel(v, start, best@, closed, rank, open, end, (MAX_PATHFIND_NODES + 1) as nat);
    }
    dirs
}

/// The state of the search between two rounds: the reached squares, the
/// open entries, the closed squares, the best square found so far, how
/// near its distance is to the largest allowed, and how many squares were
/// closed.
pub ghost struct SearchState {
    pub best: Map<u32, PathNode>,
    pub open: Seq<(u32, u16, u16)>,
    pub closed: Set<u32>,
    pub found: Option<u32>,
    pub best_match: int,
    pub iterations: int,
}

/// The square the search ends on from state `st`, if any. Each round takes
/// the first least open entry (see `min_index`); a closed square is passed
/// over; else the square is closed, and the search stops without looking
/// at it once `limit` squares are closed. A square whose distance to
/// `target` lies between `min_d` and `max_d` becomes the one found where
/// none was found yet or its distance is larger than the found one's; one
/// at the largest distance ends the search at once. Then its neighbours
/// are reached (see `expanded`). With no open entries left the search ends
/// on the square found.
#[verifier::opaque]
pub open spec fn search_end(
    v: MapView,
    start: Position,
    target: Position,
    min_d: int,
    max_d: int,
    limit: int,
    st: SearchState,
) -> Option<u32>
    decreases limit - st.iterations, st.open.len(),
{
    if st.iterations >= limit || st.open.len() == 0 {
        st.found
    } else {
        let i = min_index(st.open);
        let e = st.open[i];
        let open2 = st.open.remove(i);
        let key = square_key(e.1, e.2);
        if !(0 <= i < st.open.len()) {
            st.found
        } else if st.closed.contains(key) {
            search_end(v, start, target, min_d, max_d, limit, SearchState { open: open2, ..st })
        } else {
            let closed2 = st.closed.insert(key);
            let it2 = st.iterations + 1;
            if it2 >= limit {
                st.found
            } else {
                let dist = chebyshev(Position { x: e.1, y: e.2, z: start.z }, target);
                let m = max_d - dist;
                let hit = min_d <= dist <= max_d && (m > st.best_match || st.found is None);
                if hit && m == 0 {
                    Some(key)
                } else {
                    let cur_g: u32 = if st.best.contains_key(key) {
                        st.best[key].g
                    } else {
                        0
                    };
                    let (b3, o3) = expanded(
                        v,
                        start,
                        target,
                        key,
                        e.1,
                        e.2,
                        cur_g,
                        8,
                        st.best,
                        open2,
                        closed2,
                    );
                    search_end(
                        v,
                        start,
                        target,
                        min_d,
                        max_d,
                        limit,
                        SearchState {
                            best: b3,
                            open: o3,
                            closed: closed2,
                            found: if hit {
                                Some(key)
                            } else {
                                st.found
                            },
                            best_match: if hit {
                                m
                            } else {
                                st.best_match
                            },
                            iterations: it2,
                        },
                    )
                }
            }
        }
    }
}

/// The squares reached, each with the square it was reached from, when
/// the search from state `st` ends (the rounds of `search_end`).
#[verifier::opaque]
pub open spec fn search_best(
    v: MapView,
    start: Position,
    target: Position,
    min_d: int,
    max_d: int,
    limit: int,
    st: SearchState,
) -> Map<u32, PathNode>
    decreases limit - st.iterations, st.open.len(),
{
    if st.iterations >= limit || st.open.len() == 0 {
        st.best
    } else {
        let i = min_index(st.open);
        let e = st.open[i];
        let open2 = st.open.remove(i);
        let key = square_key(e.1, e.2);
        if !(0 <= i < st.open.len()) {
            st.best
        } else if st.closed.contains(key) {
            search_best(v, start, target, min_d, max_d, limit, SearchState { open: open2, ..st })
        } else {
            let closed2 = st.closed.insert(key);
            let it2 = st.iterations + 1;
            if it2 >= limit {
                st.best
            } else {
                let dist = chebyshev(Position { x: e.1, y: e.2, z: start.z }, target);
                let m = max_d - dist;
                let hit = min_d <= dist <= max_d && (m > st.best_match || st.found is None);
                if hit && m == 0 {
                    st.best
                } else {
                    let cur_g: u32 = if st.best.contains_key(key) {
                        st.best[key].g
                    } else {
                        0
                    };
                    let (b3, o3) = expanded(
                        v,
                        start,
                        target,
                        key,
                        e.1,
                        e.2,
                        cur_g,
                        8,
                        st.best,
                        open2,
                        closed2,
                    );
                    search_best(
                        v,
                        start,
                        target,
                        min_d,
                        max_d,
                        limit,
                        SearchState {
                            best: b3,
                            open: o3,
                            closed: closed2,
                            found: if hit {
                                Some(key)
                            } else {
                                st.found
                            },
                            best_match: if hit {
                                m
                            } else {
                                st.best_match
                            },
                            iterations: it2,
                        },
                    )
                }
            }
        }
    }
}

/// The state the search starts from: the start square reached at no cost
/// and opened with its estimate.
pub open spec fn search_start(start: Position, target: Position) -> SearchState {
    let h0 = estimate(start.x, start.y, target) as u32;
    SearchState {
        best: Map::empty().insert(square_key(start.x, start.y), PathNode { g: 0, f: h0, parent: None }),
        open: seq![(h0, start.x, start.y)],
        closed: Set::empty(),
        found: None,
        best_match: 0,
        iterations: 0,
    }
}

/// The square a full search (`full_path_search`) or a short one ends on.
pub open spec fn path_search_end(
    v: MapView,
    start: Position,
    target: Position,
    min_target_dist: i32,
    max_target_dist: i32,
    full_path_search: bool,
) -> Option<u32> {
    search_end(
        v,
        start,
        target,
        min_target_dist as int,
        max_target_dist as int,
        if full_path_search {
            MAX_PATHFIND_NODES as int
        } else {
            48
        },
        search_start(start, target),
    )
}

/// The squares reached, with the squares they were reached from, when a
/// full search (`full_path_search`) or a short one ends.
pub open spec fn path_search_best(
    v: MapView,
    start: Position,
    target: Position,
    min_target_dist: i32,
    max_target_dist: i32,
    full_path_search: bool,
) -> Map<u32, PathNode> {
    search_best(
        v,
        start,
        target,
        min_target_dist as int,
        max_target_dist as int,
        if full_path_search {
            MAX_PATHFIND_NODES as int
        } else {
            48
        },
        search_start(start, target),
    )
}

/// The direction of the step from `from` to its neighbour `to`.
pub open spec fn step_dir(from: Position, to: Position) -> Direction {
    let ddx = from.x - to.x;
    let ddy = from.y - to.y;
    if ddx == 1 && ddy == 1 {
        Direction::NorthWest
    } else if ddx == -1 && ddy == 1 {
        Direction::NorthEast
    } else if ddx == 1 && ddy == -1 {
        Direction::SouthWest
    } else if ddx == -1 && ddy == -1 {
        Direction::SouthEast
    } else if ddx == 1 {
        Direction::West
    } else if ddx == -1 {
        Direction::East
    } else if ddy == 1 {
        Direction::North
    } else {
        Direction::South
    }
}

/// The steps that lead to square `k` on floor `z`, following the squares
/// each was reached from in `best` (at most `n` of them): the last step
/// first.
pub open spec fn route(best: Map<u32, PathNode>, z: u8, k: u32, n: nat) -> Seq<Direction>
    decreases n,
{
    if n == 0 || !best.contains_key(k) {
        Seq::empty()
    } else {
        match best[k].parent {
            None => Seq::empty(),
            Some(p) => seq![step_dir(key_square(p, z), key_square(k, z))] + route(
                best,
                z,
                p,
                (n - 1) as nat,
            ),
        }
    }
}

/// The farthest a search may start from its target: `max_search_dist`, or
/// by default 9 columns and 7 rows.
pub open spec fn search_reach(max_search_dist: i32) -> (int, int) {
    if max_search_dist != 0 {
        (max_search_dist as int, max_search_dist as int)
    } else {
        (9, 7)
    }
}

/// Searches a path on the start's floor from `start` to a square whose
/// distance to `target` lies between `min_target_dist` and
/// `max_target_dist`, preferring squares nearer the target and cheaper
/// steps (straight 10, diagonal 25, 30 more onto creatures). A target next
/// to the start within a distance of 1 needs no steps. The result lists
/// the steps from the last to the first: the route back from the square the
/// search ends on, through the squares each was reached from when the
/// search ended (see `path_search_end`, `path_search_best` and `route`).
#[verifier::rlimit(60)]
pub fn find_path(
    map: &GameMap,
    start: Position,
    target: Position,
    min_target_dist: i32,
    max_target_dist: i32,
    full_path_search: bool,
    _clear_sight: bool,
    max_search_dist: i32,
) -> (r: Option<Vec<Direction>>)
    ensures
        start.z != target.z ==> r is None,
        start.z == target.z && max_target_dist <= 1 && chebyshev(start, target) <= 1 ==> (r matches Some(
            dirs,
        ) && dirs@.len() == 0),
        start.z == target.z && !(max_target_dist <= 1 && chebyshev(start, target) <= 1) ==> {
            &&& (if start.x >= target.x {
                start.x - target.x
            } else {
                target.x - start.x
            }) > search_reach(max_search_dist).0 ==> r is None
            &&& (if start.y >= target.y {
                start.y - target.y
            } else {
                target.y - start.y
            }) > search_reach(max_search_dist).1 ==> r is None
            &&& r matches Some(dirs) ==> {
                &&& walk_ok(map@, start, dirs@)
                &&& min_target_dist <= chebyshev(walk(start, dirs@), target) <= max_target_dist
            }
            &&& (if start.x >= target.x {
                start.x - target.x
            } else {
                target.x - start.x
            }) <= search_reach(max_search_dist).0 && (if start.y >= target.y {
                start.y - target.y
            } else {
                target.y - start.y
            }) <= search_reach(max_search_dist).1 ==> match path_search_end(
                map@,
                start,
                target,
                min_target_dist,
                max_target_dist,
                full_path_search,
            ) {
                Some(e) => r matches Some(dirs) && walk(start, dirs@) == key_square(e, start.z)
                    && dirs@ == route(
                    path_search_best(
                        map@,
                        start,
                        target,
                        min_target_dist,
                        max_target_dist,
                        full_path_search,
                    ),
                    start.z,
                    e,
                    (MAX_PATHFIND_NODES + 1) as nat,
                ),
                None => r is None,
            }
        },
{
    if start.z != target.z {
        return None;
    }
    let dx = abs_diff(start.x, target.x);
    let dy = abs_diff(start.y, target.y);
    if max_target_dist <= 1 && dx <= 1 && dy <= 1 {
        return Some(Vec::new());
    }
    let max_dx: i32 = if max_search_dist != 0 {
        max_search_dist
    } else {
        9
    };
    let max_dy: i32 = if max_search_dist != 0 {
        max_search_dist
    } else {
        7
    };
    if dx as i32 > max_dx || dy as i32 > max_dy {
        return None;
    }
    proof {
        reveal(search_inv);
    }
    let ghost v = map@;
    let z = start.z;
    let mut open: Vec<(u32, u16, u16)> = Vec::new();
    let mut best: HashMap<u32, PathNode> = HashMap::new();
    let mut closed: HashSet<u32> = HashSet::new();
    let h0 = heuristic(start.x, start.y, target);
    open.push((h0, start.x, start.y));
    let sk = key_of(start.x, start.y);
    best.insert(sk, PathNode { g: 0, f: h0, parent: None });
    let ghost mut rank: Map<u32, int> = Map::empty();
    let mut found: Option<u32> = None;
    let mut best_match: i32 = 0;
    let limit: usize = if full_path_search {
        MAX_PATHFIND_NODES
    } else {
        48
    };
    let mut iterations: usize = 0;
    proof {
        lemma_key_square(start.x, start.y, z);
        assert(rank.dom() =~= closed@);
    }
    let ghost st0 = SearchState {
        best: best@,
        open: open@,
        closed: closed@,
        found,
        best_match: best_match as int,
        iterations: iterations as int,
    };
    assert(st0 == search_start(start, target)) by {
        assert(best@ =~= search_start(start, target).best);
        assert(open@ =~= search_start(start, target).open);
        assert(closed@ =~= Set::<u32>::empty());
    }
    let ghost lim = limit as int;
    let ghost goal = search_end(v, start, target, min_target_dist as int, max_target_dist as int, lim, st0);
    let ghost goal_best = search_best(
        v,
        start,
        target,
        min_target_dist as int,
        max_target_dist as int,
        lim,
        st0,
    );
    while open.len() > 0
        invariant_except_break
            iterations < limit,
            goal_best == search_best(
                v,
                start,
                target,
                min_target_dist as int,
                max_target_dist as int,
                lim,
                SearchState {
                    best: best@,
                    open: open@,
                    closed: closed@,
                    found,
                    best_match: best_match as int,
                    iterations: iterations as int,
                },
            ),
            goal == search_end(
                v,
                start,
                target,
                min_target_dist as int,
                max_target_dist as int,
                lim,
                SearchState {
                    best: best@,
                    open: open@,
                    closed: closed@,
                    found,
                    best_match: best_match as int,
                    iterations: iterations as int,
                },
            ),
        invariant
            v == map@,
            z == start.z,
            sk == square_key(start.x, start.y),
            limit <= MAX_PATHFIND_NODES,
            iterations == closed@.len(),
            iterations <= limit,
            search_inv(v, start, best@, closed@, rank, open@),
            found matches Some(e) ==> closed@.contains(e) && min_target_dist <= chebyshev(
                key_square(e, z),
                target,
            ) <= max_target_dist,
            lim == limit as int,
        ensures
            goal_best == best@ || (open@.len() == 0 && goal_best == search_best(
                v,
                start,
                target,
                min_target_dist as int,
                max_target_dist as int,
                lim,
                SearchState {
                    best: best@,
                    open: open@,
                    closed: closed@,
                    found,
                    best_match: best_match as int,
                    iterations: iterations as int,
                },
            )),
            goal == found || (open@.len() == 0 && goal == search_end(
                v,
                start,
                target,
                min_target_dist as int,
                max_target_dist as int,
                lim,
                SearchState {
                    best: best@,
                    open: open@,
                    closed: closed@,
                    found,
                    best_match: best_match as int,
                    iterations: iterations as int,
                },
            )),
        decreases limit - iterations, open@.len(),
    {
        proof {
            reveal(search_inv);
        }
        let ghost open_before = open@;
        let ghost st = SearchState {
            best: best@,
            open: open@,
            closed: closed@,
            found,
            best_match: best_match as int,
            iterations: iterations as int,
        };
        let (_, cx, cy) = pop_min(&mut open);
        let key = key_of(cx, cy);
        let ghost mi = min_index(open_before);
        proof {
            let i = choose|i: int|
                0 <= i < open_before.len() && open_before[i] == (open_before[i].0, cx, cy) && open@
                    == open_before.remove(i);
            assert(best@.contains_key(square_key(open_before[i].1, open_before[i].2)));
            assert forall|j: int| 0 <= j < open@.len() implies best@.contains_key(
                square_key((#[trigger] open@[j]).1, open@[j].2),
            ) by {
                if j < i {
                    assert(open@[j] == open_before[j]);
                } else {
                    assert(open@[j] == open_before[j + 1]);
                }
            }
        }
        if closed.contains(&key) {
            assert(goal_best == search_best(
                v,
                start,
                target,
                min_target_dist as int,
                max_target_dist as int,
                lim,
                SearchState { open: open@, ..st },
            )) by {
                reveal(search_best);
            }
            assert(goal == search_end(
                v,
                start,
                target,
                min_target_dist as int,
                max_target_dist as int,
                lim,
                SearchState { open: open@, ..st },
            )) by {
                reveal(search_end);
            }
            continue;
        }
        let ghost closed_before = closed@;
        let ghost rank_before = rank;
        closed.insert(key);
        proof {
            rank = rank.insert(key, closed_before.len() as int);
            assert(rank.dom() =~= closed@);
            assert(closed@.len() == closed_before.len() + 1);
            let sk = square_key(start.x, start.y);
            if closed_before.len() == 0 {
                if key != sk {
                    assert(best@.contains_key(key));
                    assert(best@[key].parent is Some);
                }
            }
            assert forall|k: u32| #[trigger] closed@.contains(k) implies 0 <= rank[k] < closed@.len() by {
                if k != key {
                    assert(closed_before.contains(k));
                }
            }
            assert forall|k: u32| #[trigger] best@.contains_key(k) implies best@[k].g <= 55 * closed@.len() by {
            }
            assert forall|k: u32| #[trigger] best@.contains_key(k) implies match best@[k].parent {
                None => k == sk,
                Some(p) => {
                    &&& k != sk
                    &&& closed@.contains(p)
                    &&& (closed@.contains(k) ==> rank[p] < rank[k])
                    &&& neighbours(key_square(p, start.z), key_square(k, start.z))
                    &&& walkable_at(v, key_square(k, start.z))
                },
            } by {
                match best@[k].parent {
                    None => {},
                    Some(p) => {
                        assert(closed_before.contains(p));
                        assert(rank[p] == rank_before[p]);
                        if k != key && closed@.contains(k) {
                            assert(closed_before.contains(k));
                        }
                    },
                }
            }
            assert(search_inv(v, start, best@, closed@, rank, open@));
        }
        iterations = iterations + 1;
        if iterations >= limit {
            assert(goal == found) by {
                reveal(search_end);
            }
            assert(goal_best == best@) by {
                reveal(search_best);
            }
            break;
        }
        let pos = Position { x: cx, y: cy, z };
        let pdx = abs_diff(pos.x, target.x) as i32;
        let pdy = abs_diff(pos.y, target.y) as i32;
        let dist = if pdx >= pdy {
            pdx
        } else {
            pdy
        };
        proof {
            lemma_key_square(cx, cy, z);
        }
        assert(dist == chebyshev(pos, target));
        let ghost found_before = found;
        let ghost match_before = best_match as int;
        let ghost hit = min_target_dist <= dist <= max_target_dist && (max_target_dist - dist
            > match_before || found_before is None);
        if dist >= min_target_dist && dist <= max_target_dist {
            let m = max_target_dist - dist;
            if m > best_match || found.is_none() {
                best_match = m;
                found = Some(key);
                if best_match == 0 {
                    assert(goal == found) by {
                        reveal(search_end);
                    }
                    assert(goal_best == best@) by {
                        reveal(search_best);
                    }
                    break;
                }
            }
        }
        assert(hit ==> found == Some(key) && best_match == max_target_dist - dist);
        assert(!hit ==> found == found_before && best_match == match_before);
        let ghost closed_now = closed@;
        let ghost best_now = best@;
        let ghost open_now = open@;
        let cur_g = match best.get(&key) {
            Some(node) => node.g,
            None => 0,
        };
        expand_square(map, start, target, key, cx, cy, cur_g, &mut best, &mut open, &closed, Ghost(rank));
        assert(goal_best == search_best(
            v,
            start,
            target,
            min_target_dist as int,
            max_target_dist as int,
            lim,
            SearchState {
                best: best@,
                open: open@,
                closed: closed@,
                found,
                best_match: best_match as int,
                iterations: iterations as int,
            },
        )) by {
            reveal(search_best);
            assert(open_now == open_before.remove(mi));
            assert(closed_now == st.closed.insert(key));
            assert(best_now == st.best);
        }
        assert(goal == search_end(
            v,
            start,
            target,
            min_target_dist as int,
            max_target_dist as int,
            lim,
            SearchState {
                best: best@,
                open: open@,
                closed: closed@,
                found,
                best_match: best_match as int,
                iterations: iterations as int,
            },
        )) by {
            reveal(search_end);
            assert(open_now == open_before.remove(mi));
            assert(closed_now == st.closed.insert(key));
            assert(best_now == st.best);
        }
    }
    assert(goal == found) by {
        reveal(search_end);
    }
    assert(goal_best == best@) by {
        reveal(search_best);
    }
    let end = match found {
        Some(e) => e,
        None => {
            return None;
        },
    };
    let dirs = trace_back(start, &best, Ghost(closed@), Ghost(rank), Ghost(open@), end, Ghost(v));
    Some(dirs)
}

} // verus!
