use vstd::prelude::*;

use crate::cells::CellSet;
use crate::grid::{
    CELL_COUNT, DIAGONAL_COST, GridPos, ORTHOGONAL_COST, lemma_cell_at_bounds,
    lemma_cell_index_bounds, lemma_cell_index_injective, spec_cell_at, spec_cell_index,
    spec_in_bounds,
};

verus! {

/// Column step of direction `k`: the four orthogonal steps (east, west, north,
/// south) come first, then the four diagonals.
pub open spec fn dir_dx(k: int) -> int {
    if k == 0 { 1 } else if k == 1 { -1 } else if k == 2 { 0 } else if k == 3 { 0 }
    else if k == 4 { 1 } else if k == 5 { 1 } else if k == 6 { -1 } else { -1 }
}

/// Row step of direction `k`.
pub open spec fn dir_dy(k: int) -> int {
    if k == 0 { 0 } else if k == 1 { 0 } else if k == 2 { 1 } else if k == 3 { -1 }
    else if k == 4 { 1 } else if k == 5 { -1 } else if k == 6 { 1 } else { -1 }
}

pub open spec fn shift(p: GridPos, dx: int, dy: int) -> GridPos {
    GridPos { col: (p.col + dx) as i32, row: (p.row + dy) as i32 }
}

/// A cell an enemy may stand on: on the board and not blocked.
pub open spec fn is_open(p: GridPos, blocked: Set<GridPos>) -> bool {
    spec_in_bounds(p) && !blocked.contains(p)
}

/// Whether the step in direction `k` from `p` is allowed. A diagonal step also
/// needs both orthogonal cells it passes between to be open.
pub open spec fn move_ok(p: GridPos, k: int, blocked: Set<GridPos>) -> bool {
    if k < 4 {
        is_open(shift(p, dir_dx(k), dir_dy(k)), blocked)
    } else {
        &&& is_open(shift(p, dir_dx(k), dir_dy(k)), blocked)
        &&& is_open(shift(p, dir_dx(k), 0), blocked)
        &&& is_open(shift(p, 0, dir_dy(k)), blocked)
    }
}

pub open spec fn move_cost(k: int) -> i32 {
    if k < 4 { ORTHOGONAL_COST } else { DIAGONAL_COST }
}

/// The allowed moves among the first `n` directions, in direction order.
pub open spec fn moves_upto(p: GridPos, blocked: Set<GridPos>, n: int) -> Seq<(GridPos, i32)>
    decreases n,
{
    if n <= 0 {
        Seq::empty()
    } else if move_ok(p, n - 1, blocked) {
        moves_upto(p, blocked, n - 1).push(
            move_entry(p, n - 1),
        )
    } else {
        moves_upto(p, blocked, n - 1)
    }
}

pub open spec fn spec_moves(p: GridPos, blocked: Set<GridPos>) -> Seq<(GridPos, i32)> {
    moves_upto(p, blocked, 8)
}

/// `b` is one allowed move away from `a`.
pub open spec fn valid_step(a: GridPos, b: GridPos, blocked: Set<GridPos>) -> bool {
    exists|k: int| 0 <= k < 8 && b == shift(a, dir_dx(k), dir_dy(k)) && move_ok(a, k, blocked)
}

/// A sequence of cells in which every cell is one allowed move from the one
/// before it.
pub open spec fn is_walk(path: Seq<GridPos>, blocked: Set<GridPos>) -> bool {
    forall|i: int| 0 <= i < path.len() - 1 ==> valid_step(path[i], #[trigger] path[i + 1], blocked)
}

/// A walk from `a` to `b`.
pub open spec fn is_walk_between(path: Seq<GridPos>, a: GridPos, b: GridPos, blocked: Set<GridPos>) -> bool {
    &&& path.len() > 0
    &&& path[0] == a
    &&& path.last() == b
    &&& is_walk(path, blocked)
}

/// Enemies can get from `a` to `b` without crossing a blocked cell.
pub open spec fn reachable(a: GridPos, b: GridPos, blocked: Set<GridPos>) -> bool {
    exists|path: Seq<GridPos>| is_walk_between(path, a, b, blocked)
}


/// Cost of one move between neighbouring cells: 14 for a diagonal, 10 for a
/// straight step.
pub open spec fn step_cost(a: GridPos, b: GridPos) -> int {
    if a.col != b.col && a.row != b.row { DIAGONAL_COST as int } else { ORTHOGONAL_COST as int }
}

/// Total move cost along a walk.
pub open spec fn walk_cost(w: Seq<GridPos>) -> int
    decreases w.len(),
{
    if w.len() <= 1 { 0 } else { walk_cost(w.drop_last()) + step_cost(w[w.len() - 2], w.last()) }
}

/// A walk between `a` and `b` no walk between them undercuts.
pub open spec fn is_shortest_walk(path: Seq<GridPos>, a: GridPos, b: GridPos, blocked: Set<GridPos>) -> bool {
    &&& is_walk_between(path, a, b, blocked)
    &&& forall|w: Seq<GridPos>| #[trigger] is_walk_between(w, a, b, blocked) ==> walk_cost(path) <= walk_cost(w)
}

/// Putting a cell in front of a walk adds the step onto it.
pub proof fn lemma_walk_cost_prepend(a: GridPos, w: Seq<GridPos>)
    requires
        w.len() >= 1,
    ensures
        walk_cost(seq![a] + w) == step_cost(a, w[0]) + walk_cost(w),
    decreases w.len(),
{
    let v = seq![a] + w;
    assert(v.len() == w.len() + 1);
    assert(v.last() == w.last());
    if w.len() == 1 {
        assert(v.drop_last() =~= seq![a]);
        assert(v[0] == a);
        assert(walk_cost(seq![a]) == 0);
        assert(walk_cost(w) == 0);
    } else {
        lemma_walk_cost_prepend(a, w.drop_last());
        assert(v.drop_last() =~= seq![a] + w.drop_last());
        assert(v[v.len() - 2] == w[w.len() - 2]);
        assert(w.drop_last()[0] == w[0]);
    }
}

/// The cost of a walk splits at any of its cells.
pub proof fn lemma_walk_cost_split(w: Seq<GridPos>, i: int)
    requires
        0 <= i < w.len(),
    ensures
        walk_cost(w) == walk_cost(w.subrange(0, i + 1)) + walk_cost(w.subrange(i, w.len() as int)),
    decreases w.len(),
{
    if i == w.len() - 1 {
        assert(w.subrange(0, i + 1) =~= w);
        assert(w.subrange(i, w.len() as int).len() == 1);
    } else {
        lemma_walk_cost_split(w.drop_last(), i);
        assert(w.drop_last().subrange(0, i + 1) =~= w.subrange(0, i + 1));
        let tail = w.subrange(i, w.len() as int);
        assert(tail.drop_last() =~= w.drop_last().subrange(i, w.len() - 1));
        assert(tail[tail.len() - 2] == w[w.len() - 2]);
        assert(tail.last() == w.last());
    }
}

/// Moving one cell (straight or diagonal) changes the octile distance to
/// `p` by at most the cost of that move.
pub proof fn lemma_heuristic_step(p: GridPos, q: GridPos, r: GridPos)
    requires
        -1 <= r.col - q.col <= 1,
        -1 <= r.row - q.row <= 1,
    ensures
        spec_heuristic(r, p) <= spec_heuristic(q, p) + step_cost(q, r),
{
}

/// The octile distance never exceeds the cost of a walk: the heuristic is
/// admissible.
pub proof fn lemma_heuristic_admissible(w: Seq<GridPos>, blocked: Set<GridPos>)
    requires
        w.len() >= 1,
        spec_in_bounds(w[0]),
        is_walk(w, blocked),
    ensures
        spec_heuristic(w.last(), w[0]) <= walk_cost(w),
    decreases w.len(),
{
    if w.len() > 1 {
        let v = w.drop_last();
        assert(is_walk(v, blocked)) by {
            assert forall|i: int| 0 <= i < v.len() - 1 implies valid_step(v[i], #[trigger] v[i + 1], blocked) by {
                assert(valid_step(w[i], w[i + 1], blocked));
            }
        }
        lemma_heuristic_admissible(v, blocked);
        assert(valid_step(w[w.len() - 2], w[(w.len() - 2) + 1], blocked));
        if w.len() > 2 {
            assert(valid_step(w[w.len() - 3], w[(w.len() - 3) + 1], blocked));
            lemma_step_target_open(w[w.len() - 3], w[w.len() - 2], blocked);
        }
        lemma_valid_step_shape(w[w.len() - 2], w.last(), blocked);
        lemma_heuristic_step(w[0], w[w.len() - 2], w.last());
    }
}

/// The octile distance is symmetric.
pub proof fn lemma_heuristic_symmetric(a: GridPos, b: GridPos)
    ensures
        spec_heuristic(a, b) == spec_heuristic(b, a),
{
}

/// A valid step moves one cell in one of the eight directions, with the cost
/// `moves` lists for it.
pub proof fn lemma_valid_step_shape(a: GridPos, b: GridPos, blocked: Set<GridPos>)
    requires
        spec_in_bounds(a),
        valid_step(a, b, blocked),
    ensures
        -1 <= b.col - a.col <= 1,
        -1 <= b.row - a.row <= 1,
        b != a,
{
    let k = choose|k: int| 0 <= k < 8 && b == shift(a, dir_dx(k), dir_dy(k)) && move_ok(a, k, blocked);
    assert(is_open(b, blocked));
}

pub open spec fn move_entry(p: GridPos, k: int) -> (GridPos, i32) {
    (shift(p, dir_dx(k), dir_dy(k)), move_cost(k))
}

/// The cell a valid step lands on is open.
pub proof fn lemma_step_target_open(a: GridPos, b: GridPos, blocked: Set<GridPos>)
    requires
        valid_step(a, b, blocked),
    ensures
        is_open(b, blocked),
        spec_in_bounds(a) ==> b != a,
{
    let k = choose|k: int| 0 <= k < 8 && b == shift(a, dir_dx(k), dir_dy(k)) && move_ok(a, k, blocked);
}

pub proof fn lemma_moves_upto(p: GridPos, blocked: Set<GridPos>, n: int)
    requires
        0 <= n <= 8,
    ensures
        forall|i: int| 0 <= i < moves_upto(p, blocked, n).len() ==> exists|k: int|
            0 <= k < n && (#[trigger] moves_upto(p, blocked, n)[i]) == move_entry(p, k)
                && move_ok(p, k, blocked),
        forall|k: int| 0 <= k < n && #[trigger] move_ok(p, k, blocked) ==> exists|i: int|
            0 <= i < moves_upto(p, blocked, n).len() && moves_upto(p, blocked, n)[i] == move_entry(p, k),
        moves_upto(p, blocked, n).len() <= n,
    decreases n,
{
    if n > 0 {
        lemma_moves_upto(p, blocked, n - 1);
        let prev = moves_upto(p, blocked, n - 1);
        let cur = moves_upto(p, blocked, n);
        let ok = move_ok(p, n - 1, blocked);
        if ok {
            assert(cur == prev.push(move_entry(p, n - 1)));
        } else {
            assert(cur == prev);
        }
        assert forall|i: int| 0 <= i < cur.len() implies exists|k: int|
            0 <= k < n && (#[trigger] cur[i]) == move_entry(p, k) && move_ok(p, k, blocked) by {
            if i < prev.len() {
                assert(cur[i] == prev[i]);
                let k = choose|k: int| 0 <= k < n - 1 && prev[i] == move_entry(p, k) && move_ok(p, k, blocked);
                assert(0 <= k < n && cur[i] == move_entry(p, k) && move_ok(p, k, blocked));
            } else {
                assert(cur[i] == move_entry(p, n - 1));
                assert(0 <= n - 1 < n && cur[i] == move_entry(p, n - 1) && move_ok(p, n - 1, blocked));
            }
        }
        assert forall|k: int| 0 <= k < n && #[trigger] move_ok(p, k, blocked) implies exists|i: int|
            0 <= i < cur.len() && cur[i] == move_entry(p, k) by {
            if k < n - 1 {
                let i = choose|i: int| 0 <= i < prev.len() && prev[i] == move_entry(p, k);
                assert(cur[i] == prev[i]);
            } else {
                assert(cur[prev.len() as int] == move_entry(p, k));
            }
        }
    }
}

/// Every listed move is a valid step with its cost, and every valid step is
/// listed.
pub proof fn lemma_spec_moves(p: GridPos, blocked: Set<GridPos>)
    ensures
        forall|i: int| 0 <= i < spec_moves(p, blocked).len() ==> valid_step(p, (#[trigger] spec_moves(p, blocked)[i]).0, blocked),
        forall|i: int| 0 <= i < spec_moves(p, blocked).len() ==> is_open((#[trigger] spec_moves(p, blocked)[i]).0, blocked),
        forall|i: int| 0 <= i < spec_moves(p, blocked).len() ==> 10 <= (#[trigger] spec_moves(p, blocked)[i]).1 <= 14,
        forall|i: int| 0 <= i < spec_moves(p, blocked).len() ==> (#[trigger] spec_moves(p, blocked)[i]).1 == step_cost(p, spec_moves(p, blocked)[i].0),
        forall|q: GridPos| #[trigger] valid_step(p, q, blocked) ==> exists|i: int|
            0 <= i < spec_moves(p, blocked).len() && spec_moves(p, blocked)[i].0 == q,
        spec_moves(p, blocked).len() <= 8,
{
    lemma_moves_upto(p, blocked, 8);
    let m = spec_moves(p, blocked);
    assert forall|i: int| 0 <= i < m.len() implies valid_step(p, (#[trigger] m[i]).0, blocked)
        && is_open(m[i].0, blocked) && 10 <= m[i].1 <= 14 && m[i].1 == step_cost(p, m[i].0) by {
        let k = choose|k: int| 0 <= k < 8 && m[i] == move_entry(p, k) && move_ok(p, k, blocked);
    }
    assert forall|q: GridPos| #[trigger] valid_step(p, q, blocked) implies exists|i: int|
        0 <= i < m.len() && m[i].0 == q by {
        let k = choose|k: int| 0 <= k < 8 && q == shift(p, dir_dx(k), dir_dy(k)) && move_ok(p, k, blocked);
        assert(move_ok(p, k, blocked));
        let i = choose|i: int| 0 <= i < m.len() && m[i] == move_entry(p, k);
    }
}

/// The allowed moves from an in-bounds cell with their costs: the open
/// orthogonal neighbours, then the open diagonal neighbours whose two shared
/// orthogonal cells are also open (no squeezing through a diagonal gap).
pub fn moves(pos: GridPos, blocked: &CellSet) -> (result: Vec<(GridPos, i32)>)
    requires
        spec_in_bounds(pos),
        blocked.wf(),
    ensures
        result@ == spec_moves(pos, blocked@),
{
    let mut result: Vec<(GridPos, i32)> = Vec::with_capacity(8);
    let mut k: usize = 0;
    while k < 8
        invariant
            k <= 8,
            spec_in_bounds(pos),
            blocked.wf(),
            result@ == moves_upto(pos, blocked@, k as int),
        decreases 8 - k,
    {
        let (dx, dy): (i32, i32) = if k == 0 { (1, 0) } else if k == 1 { (-1, 0) } else if k == 2 {
            (0, 1)
        } else if k == 3 { (0, -1) } else if k == 4 { (1, 1) } else if k == 5 { (1, -1) }
        else if k == 6 { (-1, 1) } else { (-1, -1) };
        assert(dx == dir_dx(k as int) && dy == dir_dy(k as int));
        let neighbor = pos.offset((dx, dy));
        let ok = if k < 4 {
            neighbor.in_bounds() && !blocked.contains(neighbor)
        } else {
            let side_a = pos.offset((dx, 0));
            let side_b = pos.offset((0, dy));
            neighbor.in_bounds() && !blocked.contains(neighbor) && side_a.in_bounds()
                && !blocked.contains(side_a) && side_b.in_bounds() && !blocked.contains(side_b)
        };
        if ok {
            let cost = if k < 4 { ORTHOGONAL_COST } else { DIAGONAL_COST };
            result.push((neighbor, cost));
        }
        k = k + 1;
    }
    result
}

pub open spec fn abs_int(x: int) -> int {
    if x < 0 { -x } else { x }
}

pub open spec fn spec_heuristic(from: GridPos, to: GridPos) -> int {
    let dx = abs_int(from.col - to.col);
    let dy = abs_int(from.row - to.row);
    10 * abs_int(dx - dy) + 14 * (if dx < dy { dx } else { dy })
}

/// Octile distance between two cells: the cost of the cheapest 8-connected
/// route across open ground.
pub fn heuristic(from: GridPos, to: GridPos) -> (h: i32)
    requires
        spec_in_bounds(from),
        spec_in_bounds(to),
    ensures
        h == spec_heuristic(from, to),
        0 <= h <= 14 * 116,
{
    let dx = if from.col >= to.col { from.col - to.col } else { to.col - from.col };
    let dy = if from.row >= to.row { from.row - to.row } else { to.row - from.row };
    let diff = if dx >= dy { dx - dy } else { dy - dx };
    let low = if dx < dy { dx } else { dy };
    ORTHOGONAL_COST * diff + DIAGONAL_COST * low
}

} // verus!
