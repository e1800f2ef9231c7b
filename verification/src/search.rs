use vstd::prelude::*;

use crate::astar::{
    SearchPhase, arrives_within, lemma_frontier_multiset, lemma_push_multiset, lemma_route_state, lemma_run_step, lemma_smallest_entry, lemma_swap_remove_multiset,
    relax_moves, search_route, search_run, search_start, search_step, trace_back,
};
use crate::cells::CellSet;
use crate::grid::{
    CELL_COUNT, GridPos, lemma_cell_at_bounds, lemma_cell_index_bounds,
    lemma_cell_index_injective, spec_cell_at, spec_cell_index, spec_in_bounds,
};
use crate::path::{
    heuristic, is_open, is_shortest_walk, is_walk, is_walk_between, lemma_heuristic_admissible,
    lemma_heuristic_symmetric, lemma_spec_moves, lemma_step_target_open, lemma_walk_cost_prepend,
    lemma_walk_cost_split, moves, reachable, spec_heuristic, spec_moves, step_cost, valid_step, walk_cost,
};

verus! {

/// Cost of a cell that has not been reached yet.
pub const UNREACHED: i32 = i32::MAX;

/// Weight given to an unreached cell by the termination measure; larger than
/// any cost the search can assign (at most 14 per reached cell).
pub open spec fn unreached_weight() -> int {
    14 * CELL_COUNT + 1
}

pub open spec fn weight(c: i32) -> int {
    if c == UNREACHED { unreached_weight() } else { c as int }
}

pub open spec fn total_weight(s: Seq<i32>) -> int
    decreases s.len(),
{
    if s.len() == 0 { 0 } else { total_weight(s.drop_last()) + weight(s.last()) }
}

pub open spec fn reached_count(s: Seq<i32>) -> int
    decreases s.len(),
{
    if s.len() == 0 { 0 } else { reached_count(s.drop_last()) + (if s.last() == UNREACHED { 0int } else { 1int }) }
}

pub proof fn lemma_total_weight_update(s: Seq<i32>, i: int, v: i32)
    requires
        0 <= i < s.len(),
    ensures
        total_weight(s.update(i, v)) == total_weight(s) - weight(s[i]) + weight(v),
        reached_count(s.update(i, v)) == reached_count(s)
            - (if s[i] == UNREACHED { 0int } else { 1int }) + (if v == UNREACHED { 0int } else { 1int }),
    decreases s.len(),
{
    let t = s.update(i, v);
    if i == s.len() - 1 {
        assert(t.drop_last() =~= s.drop_last());
    } else {
        assert(t.drop_last() =~= s.drop_last().update(i, v));
        lemma_total_weight_update(s.drop_last(), i, v);
    }
}

pub proof fn lemma_total_weight_bounds(s: Seq<i32>)
    requires
        forall|i: int| 0 <= i < s.len() ==> s[i] == UNREACHED || s[i] >= 0,
    ensures
        total_weight(s) >= 0,
        0 <= reached_count(s) <= s.len(),
    decreases s.len(),
{
    if s.len() > 0 {
        lemma_total_weight_bounds(s.drop_last());
    }
}

/// Lexicographic order on frontier entries: priority, then column, then row.
pub open spec fn entry_lt(a: (i32, GridPos), b: (i32, GridPos)) -> bool {
    a.0 < b.0 || (a.0 == b.0 && (a.1.col < b.1.col || (a.1.col == b.1.col && a.1.row < b.1.row)))
}

/// Removes and returns a smallest entry of a non-empty frontier.
fn pop_min(frontier: &mut Vec<(i32, GridPos)>) -> (popped: ((i32, GridPos), Ghost<int>))
    requires
        old(frontier)@.len() > 0,
    ensures
        0 <= popped.1@ < old(frontier)@.len(),
        popped.0 == old(frontier)@[popped.1@],
        final(frontier)@ == old(frontier)@.update(popped.1@, old(frontier)@.last()).drop_last(),
        forall|t: int| 0 <= t < old(frontier)@.len() ==> !entry_lt(#[trigger] old(frontier)@[t], popped.0),
        final(frontier)@.to_multiset() == old(frontier)@.to_multiset().remove(popped.0),
{
    let mut best: usize = 0;
    let mut i: usize = 1;
    while i < frontier.len()
        invariant
            1 <= i <= frontier@.len(),
            best < frontier@.len(),
            frontier@ == old(frontier)@,
            forall|t: int| 0 <= t < i ==> !entry_lt(#[trigger] frontier@[t], frontier@[best as int]),
        decreases frontier@.len() - i,
    {
        let a = frontier[i];
        let b = frontier[best];
        if a.0 < b.0 || (a.0 == b.0 && (a.1.col < b.1.col || (a.1.col == b.1.col && a.1.row < b.1.row))) {
            best = i;
        }
        i = i + 1;
    }
    let e = frontier.swap_remove(best);
    proof {
        lemma_swap_remove_multiset(old(frontier)@, best as int);
    }
    (e, Ghost(best as int))
}

pub open spec fn reached(cost: Seq<i32>, p: GridPos) -> bool {
    cost[spec_cell_index(p)] != UNREACHED
}

pub open spec fn cost_of(cost: Seq<i32>, p: GridPos) -> i32 {
    cost[spec_cell_index(p)]
}

pub open spec fn has_entry(frontier: Seq<(i32, GridPos)>, p: GridPos) -> bool {
    exists|j: int| 0 <= j < frontier.len() && (#[trigger] frontier[j]).1 == p
}

/// Every move out of `p` leads to a reached cell.
pub open spec fn expanded(cost: Seq<i32>, p: GridPos, blocked: Set<GridPos>) -> bool {
    forall|q: GridPos| #[trigger] valid_step(p, q, blocked) ==> reached(cost, q)
}

/// Every move out of `p` leads to a reached cell whose cost is at most the
/// cost of `p` plus the move.
pub open spec fn settled(cost: Seq<i32>, p: GridPos, blocked: Set<GridPos>) -> bool {
    forall|q: GridPos| #[trigger] valid_step(p, q, blocked) ==> reached(cost, q)
        && cost_of(cost, q) <= cost_of(cost, p) + step_cost(p, q)
}

/// The priority a cell is queued with: its cost plus the octile distance
/// left to `finish`.
pub open spec fn fresh_priority(cost: Seq<i32>, p: GridPos, finish: GridPos) -> int {
    cost_of(cost, p) + spec_heuristic(p, finish)
}

/// The frontier holds `p` at its current priority.
pub open spec fn has_fresh(frontier: Seq<(i32, GridPos)>, cost: Seq<i32>, p: GridPos, finish: GridPos) -> bool {
    exists|j: int| 0 <= j < frontier.len() && (#[trigger] frontier[j]).1 == p && frontier[j].0 == fresh_priority(cost, p, finish)
}

/// The recorded predecessor of a reached cell is a reached cell one allowed
/// move away, whose cost plus that move is at most the cell's cost.
pub open spec fn parent_ok(cost: Seq<i32>, came: Seq<GridPos>, p: GridPos, blocked: Set<GridPos>) -> bool {
    let m = came[spec_cell_index(p)];
    &&& spec_in_bounds(m)
    &&& reached(cost, m)
    &&& cost_of(cost, m) + step_cost(m, p) <= cost_of(cost, p)
    &&& valid_step(m, p, blocked)
}

pub open spec fn search_inv(
    start: GridPos,
    finish: GridPos,
    blocked: Set<GridPos>,
    cost: Seq<i32>,
    came: Seq<GridPos>,
    frontier: Seq<(i32, GridPos)>,
) -> bool {
    &&& cost.len() == CELL_COUNT
    &&& came.len() == CELL_COUNT
    &&& cost_of(cost, start) == 0
    &&& forall|i: int| 0 <= i < CELL_COUNT ==> #[trigger] cost[i] == UNREACHED
        || 0 <= cost[i] <= 14 * reached_count(cost)
    &&& forall|p: GridPos| spec_in_bounds(p) && p != start && #[trigger] reached(cost, p) ==> parent_ok(cost, came, p, blocked)
    &&& forall|j: int| 0 <= j < frontier.len() ==> spec_in_bounds((#[trigger] frontier[j]).1) && reached(cost, frontier[j].1)
    &&& forall|j: int| 0 <= j < frontier.len() ==> (#[trigger] frontier[j]).0 >= fresh_priority(cost, frontier[j].1, finish)
    &&& forall|p: GridPos| spec_in_bounds(p) && #[trigger] reached(cost, p) ==> has_fresh(frontier, cost, p, finish) || settled(cost, p, blocked)
    &&& reached(cost, finish) ==> has_entry(frontier, finish)
}

proof fn lemma_index_injective()
    ensures
        forall|p: GridPos, q: GridPos| spec_in_bounds(p) && spec_in_bounds(q) && #[trigger] spec_cell_index(p) == #[trigger] spec_cell_index(q) ==> p == q,
{
    assert forall|p: GridPos, q: GridPos| spec_in_bounds(p) && spec_in_bounds(q) && #[trigger] spec_cell_index(p) == #[trigger] spec_cell_index(q) implies p == q by {
        lemma_cell_index_injective(p, q);
    }
}

/// With nothing left to expand, every cell on a walk from the start is
/// reached.
proof fn lemma_closed_walk(cost: Seq<i32>, start: GridPos, blocked: Set<GridPos>, walk: Seq<GridPos>, k: int)
    requires
        cost.len() == CELL_COUNT,
        spec_in_bounds(start),
        reached(cost, start),
        forall|p: GridPos| spec_in_bounds(p) && #[trigger] reached(cost, p) ==> expanded(cost, p, blocked),
        walk.len() > 0,
        walk[0] == start,
        is_walk(walk, blocked),
        0 <= k < walk.len(),
    ensures
        spec_in_bounds(walk[k]),
        reached(cost, walk[k]),
    decreases k,
{
    if k > 0 {
        lemma_closed_walk(cost, start, blocked, walk, k - 1);
        assert(valid_step(walk[k - 1], walk[(k - 1) + 1], blocked));
        assert(expanded(cost, walk[k - 1], blocked));
        lemma_step_target_open(walk[k - 1], walk[k], blocked);
    }
}

} // verus!

verus! {

/// Walks the predecessor links back from `finish` to `start` and returns the
/// route in travel order.
fn reconstruct(
    start: GridPos,
    finish: GridPos,
    cost: &Vec<i32>,
    came: &Vec<GridPos>,
    Ghost(blocked): Ghost<Set<GridPos>>,
) -> (path: Vec<GridPos>)
    requires
        spec_in_bounds(start),
        spec_in_bounds(finish),
        cost@.len() == CELL_COUNT,
        came@.len() == CELL_COUNT,
        reached(cost@, finish),
        cost_of(cost@, start) == 0,
        forall|i: int| 0 <= i < CELL_COUNT ==> #[trigger] cost@[i] == UNREACHED || cost@[i] >= 0,
        forall|p: GridPos| spec_in_bounds(p) && p != start && #[trigger] reached(cost@, p) ==> parent_ok(cost@, came@, p, blocked),
    ensures
        is_walk_between(path@, start, finish, blocked),
        walk_cost(path@) <= cost_of(cost@, finish),
        path@ == trace_back(came@, start, finish, cost_of(cost@, finish) as nat),
{
    let mut rev: Vec<GridPos> = Vec::new();
    rev.push(finish);
    let mut step = finish;
    let ghost fuel: nat = cost_of(cost@, finish) as nat;
    proof {
        assert(rev@.reverse() =~= seq![finish]);
        assert(rev@.reverse().drop_first() =~= Seq::<GridPos>::empty());
        assert(trace_back(came@, start, finish, fuel) =~= trace_back(came@, start, step, fuel) + rev@.reverse().drop_first());
    }
    while step != start
        invariant
            spec_in_bounds(start),
            spec_in_bounds(step),
            cost@.len() == CELL_COUNT,
            came@.len() == CELL_COUNT,
            reached(cost@, step),
            forall|i: int| 0 <= i < CELL_COUNT ==> #[trigger] cost@[i] == UNREACHED || cost@[i] >= 0,
            forall|p: GridPos| spec_in_bounds(p) && p != start && #[trigger] reached(cost@, p) ==> parent_ok(cost@, came@, p, blocked),
            rev@.len() > 0,
            rev@[0] == finish,
            rev@.last() == step,
            forall|k: int| 0 <= k < rev@.len() - 1 ==> valid_step(#[trigger] rev@[k + 1], rev@[k], blocked),
            walk_cost(rev@.reverse()) + cost_of(cost@, step) <= cost_of(cost@, finish),
            cost_of(cost@, step) <= fuel,
            trace_back(came@, start, finish, cost_of(cost@, finish) as nat)
                == trace_back(came@, start, step, fuel) + rev@.reverse().drop_first(),
        decreases cost_of(cost@, step),
    {
        proof {
            lemma_cell_index_bounds(step);
            assert(parent_ok(cost@, came@, step, blocked));
            let m = came@[spec_cell_index(step)];
            lemma_cell_index_bounds(m);
        }
        let next = came[step.cell_index()];
        let ghost old_rev = rev@;
        let ghost old_fuel = fuel;
        rev.push(next);
        proof {
            assert(rev@.reverse() =~= seq![next] + old_rev.reverse());
            assert(parent_ok(cost@, came@, step, blocked));
            assert(cost_of(cost@, step) >= 10);
            assert(trace_back(came@, start, step, old_fuel)
                == trace_back(came@, start, next, (old_fuel - 1) as nat).push(step));
            assert(old_rev.reverse() =~= seq![step] + old_rev.reverse().drop_first());
            assert(rev@.reverse().drop_first() =~= old_rev.reverse());
            assert(trace_back(came@, start, next, (old_fuel - 1) as nat).push(step) + old_rev.reverse().drop_first()
                =~= trace_back(came@, start, next, (old_fuel - 1) as nat) + rev@.reverse().drop_first());
            fuel = (old_fuel - 1) as nat;
            assert(old_rev.reverse()[0] == step);
            lemma_walk_cost_prepend(next, old_rev.reverse());
            assert(parent_ok(cost@, came@, step, blocked));
        }
        proof {
            assert forall|k: int| 0 <= k < rev@.len() - 1 implies valid_step(#[trigger] rev@[k + 1], rev@[k], blocked) by {
                if k < old_rev.len() - 1 {
                    assert(rev@[k + 1] == old_rev[k + 1]);
                    assert(rev@[k] == old_rev[k]);
                } else {
                    assert(rev@[k] == step);
                    assert(rev@[k + 1] == next);
                }
            }
        }
        step = next;
    }
    let mut path: Vec<GridPos> = Vec::new();
    let n = rev.len();
    let mut i: usize = n;
    while i > 0
        invariant
            n == rev@.len(),
            i <= n,
            path@.len() == n - i,
            forall|t: int| 0 <= t < path@.len() ==> #[trigger] path@[t] == rev@[n - 1 - t],
        decreases i,
    {
        i = i - 1;
        path.push(rev[i]);
    }
    proof {
        assert(path@ =~= rev@.reverse());
        assert(path@ == trace_back(came@, start, finish, cost_of(cost@, finish) as nat)) by {
            assert(trace_back(came@, start, step, fuel) == seq![start]);
            assert(rev@.reverse() =~= seq![start] + rev@.reverse().drop_first());
        }
        assert(path@[0] == rev@[n - 1]);
        assert(path@.last() == rev@[0]);
        assert forall|t: int| 0 <= t < path@.len() - 1 implies valid_step(path@[t], #[trigger] path@[t + 1], blocked) by {
            let k = n - 2 - t;
            assert(valid_step(rev@[k + 1], rev@[k], blocked));
            assert(path@[t] == rev@[k + 1]);
            assert(path@[t + 1] == rev@[k]);
        }
    }
    path
}

} // verus!

verus! {

/// The search invariant with the expansion duty of `current` still pending.
pub open spec fn relax_inv(
    start: GridPos,
    finish: GridPos,
    current: GridPos,
    blocked: Set<GridPos>,
    cost: Seq<i32>,
    came: Seq<GridPos>,
    frontier: Seq<(i32, GridPos)>,
) -> bool {
    &&& cost.len() == CELL_COUNT
    &&& came.len() == CELL_COUNT
    &&& cost_of(cost, start) == 0
    &&& forall|i: int| 0 <= i < CELL_COUNT ==> #[trigger] cost[i] == UNREACHED
        || 0 <= cost[i] <= 14 * reached_count(cost)
    &&& forall|p: GridPos| spec_in_bounds(p) && p != start && #[trigger] reached(cost, p) ==> parent_ok(cost, came, p, blocked)
    &&& forall|j: int| 0 <= j < frontier.len() ==> spec_in_bounds((#[trigger] frontier[j]).1) && reached(cost, frontier[j].1)
    &&& forall|j: int| 0 <= j < frontier.len() ==> (#[trigger] frontier[j]).0 >= fresh_priority(cost, frontier[j].1, finish)
    &&& forall|p: GridPos| spec_in_bounds(p) && p != current && #[trigger] reached(cost, p) ==> has_fresh(frontier, cost, p, finish) || settled(cost, p, blocked)
    &&& reached(cost, finish) ==> has_entry(frontier, finish)
}

/// One successful relaxation keeps the pending-search invariant, records the
/// neighbour as reached at its new cost, and lowers the termination measure.
#[verifier::rlimit(40)]
proof fn lemma_relax_update(
    start: GridPos,
    finish: GridPos,
    current: GridPos,
    blocked: Set<GridPos>,
    cost: Seq<i32>,
    came: Seq<GridPos>,
    frontier: Seq<(i32, GridPos)>,
    neighbor: GridPos,
    new_cost: i32,
    priority: i32,
    neighbors: Seq<(GridPos, i32)>,
    j: int,
)
    requires
        relax_inv(start, finish, current, blocked, cost, came, frontier),
        spec_in_bounds(start),
        spec_in_bounds(current),
        spec_in_bounds(neighbor),
        spec_in_bounds(finish),
        valid_step(current, neighbor, blocked),
        current != neighbor,
        reached(cost, current),
        new_cost == cost_of(cost, current) + step_cost(current, neighbor),
        10 <= step_cost(current, neighbor) <= 14,
        new_cost < cost_of(cost, neighbor),
        priority == new_cost + spec_heuristic(neighbor, finish),
        0 <= j < neighbors.len(),
        neighbors[j].0 == neighbor,
        neighbors[j].1 == step_cost(current, neighbor),
        forall|t: int| 0 <= t < j ==> reached(cost, (#[trigger] neighbors[t]).0)
            && cost_of(cost, neighbors[t].0) <= cost_of(cost, current) + neighbors[t].1,
        forall|t: int| 0 <= t < neighbors.len() ==> spec_in_bounds((#[trigger] neighbors[t]).0),
        forall|p: GridPos, q: GridPos| spec_in_bounds(p) && spec_in_bounds(q) && #[trigger] spec_cell_index(p) == #[trigger] spec_cell_index(q) ==> p == q,
    ensures
        ({
            let ni = spec_cell_index(neighbor);
            let c = cost.update(ni, new_cost);
            let m = came.update(ni, current);
            let f = frontier.push((priority, neighbor));
            &&& relax_inv(start, finish, current, blocked, c, m, f)
            &&& cost_of(c, current) == cost_of(cost, current)
            &&& forall|t: int| 0 <= t < j + 1 ==> reached(c, (#[trigger] neighbors[t]).0)
                && cost_of(c, neighbors[t].0) <= cost_of(c, current) + neighbors[t].1
            &&& 2 * total_weight(c) + f.len() < 2 * total_weight(cost) + frontier.len()
        }),
{
    let ni = spec_cell_index(neighbor);
    let c = cost.update(ni, new_cost);
    let m = came.update(ni, current);
    let f = frontier.push((priority, neighbor));
    lemma_cell_index_bounds(neighbor);
    lemma_cell_index_bounds(current);
    lemma_cell_index_bounds(start);
    lemma_total_weight_update(cost, ni, new_cost);
    lemma_total_weight_bounds(cost);
    assert(0 <= cost_of(cost, current) <= 14 * reached_count(cost));
    assert(reached_count(c) >= reached_count(cost));
    assert(spec_cell_index(current) != ni);
    assert(cost_of(c, current) == cost_of(cost, current));
    assert(neighbor != start) by {
        if neighbor == start {
            assert(cost_of(cost, start) == 0);
        }
    }
    assert(cost_of(c, start) == 0);
    // Costs only go down.
    assert forall|q: GridPos| spec_in_bounds(q) implies #[trigger] cost_of(c, q) <= cost_of(cost, q)
        && (reached(cost, q) ==> reached(c, q)) && (q != neighbor ==> cost_of(c, q) == cost_of(cost, q)) by {
        lemma_cell_index_bounds(q);
        if q != neighbor {
            assert(spec_cell_index(q) != ni);
        }
    }
    assert forall|i: int| 0 <= i < CELL_COUNT implies #[trigger] c[i] == UNREACHED
        || 0 <= c[i] <= 14 * reached_count(c) by {
        if i != ni {
            assert(c[i] == cost[i]);
        }
    }
    assert forall|p: GridPos| spec_in_bounds(p) && p != start && #[trigger] reached(c, p)
        implies parent_ok(c, m, p, blocked) by {
        lemma_cell_index_bounds(p);
        if p == neighbor {
            assert(m[spec_cell_index(p)] == current);
        } else {
            assert(spec_cell_index(p) != ni);
            assert(reached(cost, p));
            assert(parent_ok(cost, came, p, blocked));
            let mm = came[spec_cell_index(p)];
            assert(m[spec_cell_index(p)] == mm);
            lemma_cell_index_bounds(mm);
            assert(cost_of(c, mm) <= cost_of(cost, mm));
            assert(cost_of(c, p) == cost_of(cost, p));
        }
    }
    assert forall|t: int| 0 <= t < f.len() implies spec_in_bounds((#[trigger] f[t]).1) && reached(c, f[t].1)
        && f[t].0 >= fresh_priority(c, f[t].1, finish) by {
        if t < frontier.len() {
            assert(f[t] == frontier[t]);
            lemma_cell_index_bounds(frontier[t].1);
            assert(cost_of(c, frontier[t].1) <= cost_of(cost, frontier[t].1));
        }
    }
    assert(f[frontier.len() as int].1 == neighbor);
    assert forall|p: GridPos| spec_in_bounds(p) && p != current && #[trigger] reached(c, p)
        implies has_fresh(f, c, p, finish) || settled(c, p, blocked) by {
        lemma_cell_index_bounds(p);
        if p == neighbor {
            assert(f[frontier.len() as int] == (priority, neighbor));
        } else {
            assert(reached(cost, p));
            assert(cost_of(c, p) == cost_of(cost, p));
            if has_fresh(frontier, cost, p, finish) {
                let jj = choose|jj: int| 0 <= jj < frontier.len() && (#[trigger] frontier[jj]).1 == p
                    && frontier[jj].0 == fresh_priority(cost, p, finish);
                assert(f[jj] == frontier[jj]);
            } else {
                assert(settled(cost, p, blocked));
                assert forall|q: GridPos| #[trigger] valid_step(p, q, blocked) implies reached(c, q)
                    && cost_of(c, q) <= cost_of(c, p) + step_cost(p, q) by {
                    assert(reached(cost, q));
                    lemma_step_target_open(p, q, blocked);
                    assert(cost_of(c, q) <= cost_of(cost, q));
                }
            }
        }
    }
    if reached(c, finish) {
        lemma_cell_index_bounds(finish);
        if finish == neighbor {
            assert(f[frontier.len() as int].1 == finish);
        } else {
            assert(reached(cost, finish));
            let jj = choose|jj: int| 0 <= jj < frontier.len() && (#[trigger] frontier[jj]).1 == finish;
            assert(f[jj] == frontier[jj]);
        }
    }
    lemma_total_weight_bounds(c);
    assert(new_cost <= 14 * reached_count(c));
    assert(2 * total_weight(c) + f.len() < 2 * total_weight(cost) + frontier.len());
    assert forall|t: int| 0 <= t < j + 1 implies reached(c, (#[trigger] neighbors[t]).0)
        && cost_of(c, neighbors[t].0) <= cost_of(c, current) + neighbors[t].1 by {
        let q = neighbors[t].0;
        lemma_cell_index_bounds(q);
        if t < j {
            assert(reached(cost, q));
            assert(cost_of(c, q) <= cost_of(cost, q));
        }
    }
}

/// Relaxes every move out of `current`: a neighbour whose recorded cost drops
/// gets `current` as its predecessor and a new frontier entry.
#[verifier::rlimit(30)]
fn relax(
    start: GridPos,
    finish: GridPos,
    current: GridPos,
    blocked: &CellSet,
    cost: &mut Vec<i32>,
    came: &mut Vec<GridPos>,
    frontier: &mut Vec<(i32, GridPos)>,
)
    requires
        blocked.wf(),
        spec_in_bounds(start),
        spec_in_bounds(finish),
        spec_in_bounds(current),
        current != finish,
        reached(old(cost)@, current),
        relax_inv(start, finish, current, blocked@, old(cost)@, old(came)@, old(frontier)@),
    ensures
        search_inv(start, finish, blocked@, final(cost)@, final(came)@, final(frontier)@),
        2 * total_weight(final(cost)@) + final(frontier)@.len() <= 2 * total_weight(old(cost)@) + old(frontier)@.len(),
        (final(cost)@, final(came)@, final(frontier)@.to_multiset()) == relax_moves(
            (old(cost)@, old(came)@, old(frontier)@.to_multiset()),
            current,
            old(cost)@[spec_cell_index(current)],
            finish,
            spec_moves(current, blocked@),
        ),
{
    proof {
        lemma_index_injective();
        lemma_cell_index_bounds(current);
        lemma_total_weight_bounds(cost@);
    }
    let current_cost = cost[current.cell_index()];
    let neighbors = moves(current, blocked);
    let ghost s0 = (cost@, came@, frontier@.to_multiset());
    proof {
        lemma_spec_moves(current, blocked@);
        assert(neighbors@.subrange(0, 0) =~= Seq::<(GridPos, i32)>::empty());
    }
    let mut j: usize = 0;
    while j < neighbors.len()
        invariant
            blocked.wf(),
            spec_in_bounds(start),
            spec_in_bounds(finish),
            spec_in_bounds(current),
            current != finish,
            neighbors@ == spec_moves(current, blocked@),
            j <= neighbors@.len(),
            relax_inv(start, finish, current, blocked@, cost@, came@, frontier@),
            cost_of(cost@, current) == current_cost,
            reached(cost@, current),
            forall|t: int| 0 <= t < j ==> reached(cost@, (#[trigger] neighbors@[t]).0)
                && cost_of(cost@, neighbors@[t].0) <= current_cost + neighbors@[t].1,
            2 * total_weight(cost@) + frontier@.len() <= 2 * total_weight(old(cost)@) + old(frontier)@.len(),
            forall|p: GridPos, q: GridPos| spec_in_bounds(p) && spec_in_bounds(q) && #[trigger] spec_cell_index(p) == #[trigger] spec_cell_index(q) ==> p == q,
            s0 == (old(cost)@, old(came)@, old(frontier)@.to_multiset()),
            current_cost == old(cost)@[spec_cell_index(current)],
            (cost@, came@, frontier@.to_multiset()) == relax_moves(s0, current, current_cost, finish, neighbors@.subrange(0, j as int)),
        decreases neighbors@.len() - j,
    {
        let (neighbor, step) = neighbors[j];
        proof {
            lemma_relax_moves_next(s0, current, current_cost, finish, neighbors@, j as int);
        }
        proof {
            lemma_spec_moves(current, blocked@);
            assert(neighbors@[j as int] == spec_moves(current, blocked@)[j as int]);
            assert(valid_step(current, neighbor, blocked@));
            assert(step == step_cost(current, neighbor));
            lemma_step_target_open(current, neighbor, blocked@);
            lemma_cell_index_bounds(neighbor);
            lemma_total_weight_bounds(cost@);
        }
        let ni = neighbor.cell_index();
        proof {
            lemma_cell_index_bounds(current);
            assert(cost@[spec_cell_index(current)] == current_cost);
            assert(0 <= current_cost <= 14 * reached_count(cost@));
            assert(reached_count(cost@) <= CELL_COUNT);
        }
        let new_cost = current_cost + step;
        if new_cost < cost[ni] {
            let ghost old_cost = cost@;
            let ghost old_came = came@;
            let ghost old_frontier = frontier@;
            proof {
                lemma_total_weight_update(old_cost, ni as int, new_cost);
            }
            cost.set(ni, new_cost);
            came.set(ni, current);
            let h = heuristic(neighbor, finish);
            let priority = new_cost + h;
            frontier.push((priority, neighbor));
            proof {
                assert(frontier@ == old_frontier.push((priority, neighbor)));
                lemma_push_multiset(old_frontier, (priority, neighbor));
                lemma_spec_moves(current, blocked@);
                assert forall|t: int| 0 <= t < neighbors@.len() implies spec_in_bounds((#[trigger] neighbors@[t]).0) by {
                    assert(neighbors@[t] == spec_moves(current, blocked@)[t]);
                }
                assert(cost@ == old_cost.update(spec_cell_index(neighbor), new_cost));
                assert(came@ == old_came.update(spec_cell_index(neighbor), current));
                lemma_heuristic_symmetric(neighbor, finish);
                lemma_relax_update(start, finish, current, blocked@, old_cost, old_came, old_frontier,
                    neighbor, new_cost, priority, neighbors@, j as int);
            }
        } else {
            proof {
                assert(reached(cost@, neighbor)) by {
                    assert(cost@[ni as int] <= new_cost);
                }
                assert forall|t: int| 0 <= t < j + 1 implies reached(cost@, (#[trigger] neighbors@[t]).0)
                    && cost_of(cost@, neighbors@[t].0) <= current_cost + neighbors@[t].1 by {
                    if t == j {
                        assert(neighbors@[t] == (neighbor, step));
                    }
                }
            }
        }
        j = j + 1;
    }
    proof {
        lemma_spec_moves(current, blocked@);
        assert(neighbors@.subrange(0, neighbors@.len() as int) =~= neighbors@);
        assert forall|q: GridPos| #[trigger] valid_step(current, q, blocked@) implies reached(cost@, q)
            && cost_of(cost@, q) <= cost_of(cost@, current) + step_cost(current, q) by {
            let t = choose|t: int| 0 <= t < neighbors@.len() && neighbors@[t].0 == q;
            assert(neighbors@[t] == spec_moves(current, blocked@)[t]);
        }
        assert(settled(cost@, current, blocked@));
    }
}

} // verus!

verus! {

/// Taking an entry out of the frontier keeps every other entry.
proof fn lemma_swap_remove_keeps(old_f: Seq<(i32, GridPos)>, k: int, new_f: Seq<(i32, GridPos)>)
    requires
        0 <= k < old_f.len(),
        new_f == old_f.update(k, old_f.last()).drop_last(),
    ensures
        forall|j: int| 0 <= j < new_f.len() ==> exists|i: int| 0 <= i < old_f.len() && #[trigger] new_f[j] == old_f[i],
        forall|p: GridPos| #[trigger] has_entry(old_f, p) && old_f[k].1 != p ==> has_entry(new_f, p),
        forall|i: int| 0 <= i < old_f.len() && i != k ==> exists|j: int| 0 <= j < new_f.len() && new_f[j] == #[trigger] old_f[i],
{
    assert forall|i: int| 0 <= i < old_f.len() && i != k implies exists|j: int| 0 <= j < new_f.len() && new_f[j] == #[trigger] old_f[i] by {
        if i == old_f.len() - 1 {
            assert(new_f[k] == old_f[i]);
        } else {
            assert(new_f[i] == old_f[i]);
        }
    }
    assert forall|j: int| 0 <= j < new_f.len() implies exists|i: int| 0 <= i < old_f.len() && #[trigger] new_f[j] == old_f[i] by {
        if j == k {
            assert(new_f[j] == old_f[old_f.len() - 1]);
        } else {
            assert(new_f[j] == old_f[j]);
        }
    }
    assert forall|p: GridPos| #[trigger] has_entry(old_f, p) && old_f[k].1 != p implies has_entry(new_f, p) by {
        let i = choose|i: int| 0 <= i < old_f.len() && (#[trigger] old_f[i]).1 == p;
        if i == old_f.len() - 1 {
            assert(new_f[k] == old_f[i]);
        } else {
            assert(new_f[i] == old_f[i]);
        }
    }
}


/// Every cell of a walk from an on-board cell is on the board.
proof fn lemma_walk_in_bounds(w: Seq<GridPos>, blocked: Set<GridPos>, j: int)
    requires
        w.len() > 0,
        spec_in_bounds(w[0]),
        is_walk(w, blocked),
        0 <= j < w.len(),
    ensures
        spec_in_bounds(w[j]),
{
    if j > 0 {
        assert(valid_step(w[j - 1], w[(j - 1) + 1], blocked));
        lemma_step_target_open(w[j - 1], w[j], blocked);
    }
}

/// Along a walk from the start whose first `j` cells are settled, cell `j`
/// is reached at no more than the walk's cost up to it.
proof fn lemma_settled_prefix(
    start: GridPos,
    finish: GridPos,
    blocked: Set<GridPos>,
    cost: Seq<i32>,
    came: Seq<GridPos>,
    frontier: Seq<(i32, GridPos)>,
    w: Seq<GridPos>,
    j: int,
)
    requires
        search_inv(start, finish, blocked, cost, came, frontier),
        spec_in_bounds(start),
        w.len() > 0,
        w[0] == start,
        is_walk(w, blocked),
        0 <= j < w.len(),
        forall|t: int| 0 <= t < j ==> settled(cost, #[trigger] w[t], blocked),
    ensures
        reached(cost, w[j]),
        cost_of(cost, w[j]) <= walk_cost(w.subrange(0, j + 1)),
    decreases j,
{
    if j == 0 {
        lemma_cell_index_bounds(start);
        assert(w.subrange(0, 1).len() == 1);
    } else {
        lemma_settled_prefix(start, finish, blocked, cost, came, frontier, w, j - 1);
        assert(settled(cost, w[j - 1], blocked));
        assert(valid_step(w[j - 1], w[(j - 1) + 1], blocked));
        let pre = w.subrange(0, j + 1);
        assert(pre.drop_last() =~= w.subrange(0, j));
        assert(pre[pre.len() - 2] == w[j - 1]);
        assert(pre.last() == w[j]);
    }
}

/// A walk from the start meets the frontier: some cell of it, reached at no
/// more than the walk's cost up to it, is queued at its current priority,
/// unless the walk's last cell already has such a cost.
proof fn lemma_find_crossing(
    start: GridPos,
    finish: GridPos,
    blocked: Set<GridPos>,
    cost: Seq<i32>,
    came: Seq<GridPos>,
    frontier: Seq<(i32, GridPos)>,
    w: Seq<GridPos>,
    j: int,
) -> (i: int)
    requires
        search_inv(start, finish, blocked, cost, came, frontier),
        spec_in_bounds(start),
        w.len() > 0,
        w[0] == start,
        is_walk(w, blocked),
        0 <= j < w.len(),
        forall|t: int| 0 <= t < j ==> settled(cost, #[trigger] w[t], blocked),
    ensures
        j <= i < w.len(),
        reached(cost, w[i]),
        cost_of(cost, w[i]) <= walk_cost(w.subrange(0, i + 1)),
        has_fresh(frontier, cost, w[i], finish) || i == w.len() - 1,
    decreases w.len() - j,
{
    lemma_settled_prefix(start, finish, blocked, cost, came, frontier, w, j);
    lemma_walk_in_bounds(w, blocked, j);
    if j == w.len() - 1 {
        j
    } else if !settled(cost, w[j], blocked) {
        j
    } else {
        lemma_find_crossing(start, finish, blocked, cost, came, frontier, w, j + 1)
    }
}

/// A queued cell on a walk to the finish, whose entry does not come before
/// the finish's, bounds the finish's cost by the walk's cost.
proof fn lemma_crossing_bound(
    start: GridPos,
    finish: GridPos,
    blocked: Set<GridPos>,
    cost: Seq<i32>,
    entry: (i32, GridPos),
    finish_entry: (i32, GridPos),
    w: Seq<GridPos>,
    i: int,
)
    requires
        spec_in_bounds(start),
        spec_in_bounds(finish),
        is_walk_between(w, start, finish, blocked),
        0 <= i < w.len(),
        finish_entry.0 >= fresh_priority(cost, finish, finish),
        entry.0 == fresh_priority(cost, w[i], finish),
        !entry_lt(entry, finish_entry),
        cost_of(cost, w[i]) <= walk_cost(w.subrange(0, i + 1)),
    ensures
        cost_of(cost, finish) <= walk_cost(w),
{
    let n = w.len() as int;
    assert(spec_heuristic(finish, finish) == 0);
    let suffix = w.subrange(i, n);
    lemma_walk_cost_split(w, i);
    assert(is_walk(suffix, blocked)) by {
        assert forall|t: int| 0 <= t < suffix.len() - 1 implies valid_step(suffix[t], #[trigger] suffix[t + 1], blocked) by {
            assert(valid_step(w[i + t], w[(i + t) + 1], blocked));
        }
    }
    lemma_walk_in_bounds(w, blocked, i);
    lemma_heuristic_admissible(suffix, blocked);
    assert(suffix.last() == finish);
    lemma_heuristic_symmetric(finish, w[i]);
}

/// When the finish leaves the frontier first among all entries, its cost is
/// no more than that of any walk from the start to it.
proof fn lemma_finish_cost_bound(
    start: GridPos,
    finish: GridPos,
    blocked: Set<GridPos>,
    cost: Seq<i32>,
    came: Seq<GridPos>,
    frontier: Seq<(i32, GridPos)>,
    k: int,
    w: Seq<GridPos>,
)
    requires
        search_inv(start, finish, blocked, cost, came, frontier),
        spec_in_bounds(start),
        spec_in_bounds(finish),
        0 <= k < frontier.len(),
        frontier[k].1 == finish,
        forall|t: int| 0 <= t < frontier.len() ==> !entry_lt(#[trigger] frontier[t], frontier[k]),
        is_walk_between(w, start, finish, blocked),
    ensures
        cost_of(cost, finish) <= walk_cost(w),
{
    let i = lemma_find_crossing(start, finish, blocked, cost, came, frontier, w, 0);
    let n = w.len() as int;
    assert(frontier[k].0 >= fresh_priority(cost, frontier[k].1, finish));
    if has_fresh(frontier, cost, w[i], finish) {
        let jj = choose|jj: int| 0 <= jj < frontier.len() && (#[trigger] frontier[jj]).1 == w[i]
            && frontier[jj].0 == fresh_priority(cost, w[i], finish);
        assert(!entry_lt(frontier[jj], frontier[k]));
        lemma_crossing_bound(start, finish, blocked, cost, frontier[jj], frontier[k], w, i);
    } else {
        assert(w.subrange(0, n) =~= w);
    }
}

/// A* over the 8-connected board from `start` to `finish`, avoiding `blocked`
/// cells. Entries leave the frontier in order of (estimated total cost,
/// column, row). Returns a walk between the two cells when one exists and
/// `None` exactly when `finish` cannot be reached; the walk is a shortest one,
/// and it is the one the step-by-step model `search_route` arrives at.
pub fn find_path_between(start: GridPos, finish: GridPos, blocked: &CellSet) -> (result: Option<Vec<GridPos>>)
    requires
        blocked.wf(),
        spec_in_bounds(start),
        spec_in_bounds(finish),
    ensures
        result is Some <==> reachable(start, finish, blocked@),
        result matches Some(path) ==> is_shortest_walk(path@, start, finish, blocked@),
        result matches Some(path) ==> path@ == search_route(start, finish, blocked@),
{
    let mut cost: Vec<i32> = vec![UNREACHED; CELL_COUNT];
    let mut came: Vec<GridPos> = vec![start; CELL_COUNT];
    let si = start.cell_index();
    cost.set(si, 0);
    let mut frontier: Vec<(i32, GridPos)> = Vec::new();
    frontier.push((heuristic(start, finish), start));
    proof {
        lemma_index_injective();
        lemma_cell_index_bounds(start);
        assert forall|i: int| 0 <= i < CELL_COUNT implies #[trigger] cost@[i] == UNREACHED || cost@[i] >= 0 by {}
        lemma_total_weight_bounds(cost@);
        assert(reached(cost@, start));
        assert(frontier@[0].1 == start);
        assert(frontier@[0] == (fresh_priority(cost@, start, finish) as i32, start));
        assert forall|p: GridPos| spec_in_bounds(p) && #[trigger] reached(cost@, p) implies p == start by {
            lemma_cell_index_bounds(p);
        }
        if reached(cost@, finish) {
            assert(finish == start);
        }
        assert(search_inv(start, finish, blocked@, cost@, came@, frontier@));
    }
    let ghost steps: nat = 0;
    proof {
        let init = search_start(start, finish);
        assert(cost@ =~= init.0);
        assert(came@ =~= init.1);
        assert(frontier@ =~= seq![(spec_heuristic(start, finish) as i32, start)]);
    }
    while frontier.len() > 0
        invariant
            blocked.wf(),
            spec_in_bounds(start),
            spec_in_bounds(finish),
            search_inv(start, finish, blocked@, cost@, came@, frontier@),
            search_run(search_start(start, finish), SearchPhase::Searching, finish, blocked@, steps)
                == ((cost@, came@, frontier@.to_multiset()), SearchPhase::Searching),
        decreases 2 * total_weight(cost@) + frontier@.len(),
    {
        let ghost before_cost = cost@;
        let ghost before_frontier = frontier@;
        let ((popped_priority, current), Ghost(k)) = pop_min(&mut frontier);
        proof {
            lemma_swap_remove_keeps(before_frontier, k, frontier@);
            assert(before_frontier[k].1 == current);
            lemma_cell_index_bounds(current);
            lemma_pop_step(start, finish, blocked@, before_cost, came@, before_frontier, k, frontier@, steps);
        }
        if current == finish {
            proof {
                assert(arrives_within(start, finish, blocked@, steps + 1));
                lemma_route_state(start, finish, blocked@, steps + 1);
                assert forall|i: int| 0 <= i < CELL_COUNT implies #[trigger] cost@[i] == UNREACHED || cost@[i] >= 0 by {}
                assert forall|w: Seq<GridPos>| is_walk_between(w, start, finish, blocked@)
                    implies cost_of(cost@, finish) <= walk_cost(w) by {
                    lemma_finish_cost_bound(start, finish, blocked@, cost@, came@, before_frontier, k, w);
                }
            }
            let path = reconstruct(start, finish, &cost, &came, Ghost(blocked@));
            return Some(path);
        }
        proof {
            let c = cost@;
            let f = frontier@;
            assert forall|j: int| 0 <= j < f.len() implies spec_in_bounds((#[trigger] f[j]).1) && reached(c, f[j].1)
                && f[j].0 >= fresh_priority(c, f[j].1, finish) by {
                let i = choose|i: int| 0 <= i < before_frontier.len() && #[trigger] f[j] == before_frontier[i];
                assert(spec_in_bounds(before_frontier[i].1));
            }
            assert forall|p: GridPos| spec_in_bounds(p) && p != current && #[trigger] reached(c, p)
                implies has_fresh(f, c, p, finish) || settled(c, p, blocked@) by {
                if has_fresh(before_frontier, c, p, finish) {
                    let i = choose|i: int| 0 <= i < before_frontier.len() && (#[trigger] before_frontier[i]).1 == p
                        && before_frontier[i].0 == fresh_priority(c, p, finish);
                    assert(i != k);
                    let j = choose|j: int| 0 <= j < f.len() && f[j] == #[trigger] before_frontier[i];
                    assert(f[j].1 == p);
                }
            }
            if reached(c, finish) {
                assert(has_entry(before_frontier, finish));
                assert(has_entry(f, finish));
            }
            assert(relax_inv(start, finish, current, blocked@, c, came@, f));
        }
        relax(start, finish, current, blocked, &mut cost, &mut came, &mut frontier);
        proof {
            steps = steps + 1;
            assert forall|i: int| 0 <= i < CELL_COUNT implies #[trigger] cost@[i] == UNREACHED || cost@[i] >= 0 by {}
            lemma_total_weight_bounds(cost@);
        }
    }
    proof {
        assert(!reached(cost@, finish));
        if reachable(start, finish, blocked@) {
            let walk = choose|walk: Seq<GridPos>| is_walk_between(walk, start, finish, blocked@);
            assert forall|p: GridPos| spec_in_bounds(p) && #[trigger] reached(cost@, p) implies expanded(cost@, p, blocked@) by {
                assert(!has_fresh(frontier@, cost@, p, finish));
                assert(settled(cost@, p, blocked@));
                assert forall|q: GridPos| #[trigger] valid_step(p, q, blocked@) implies reached(cost@, q) by {
                    assert(settled(cost@, p, blocked@));
                }
            }
            lemma_cell_index_bounds(start);
            lemma_closed_walk(cost@, start, blocked@, walk, walk.len() - 1);
        }
    }
    None
}


/// Taking the smallest entry out of the frontier is the model's next step.
proof fn lemma_pop_step(
    start: GridPos,
    finish: GridPos,
    blocked: Set<GridPos>,
    cost: Seq<i32>,
    came: Seq<GridPos>,
    before: Seq<(i32, GridPos)>,
    k: int,
    after: Seq<(i32, GridPos)>,
    steps: nat,
)
    requires
        search_run(search_start(start, finish), SearchPhase::Searching, finish, blocked, steps)
            == ((cost, came, before.to_multiset()), SearchPhase::Searching),
        0 <= k < before.len(),
        forall|t: int| 0 <= t < before.len() ==> !entry_lt(#[trigger] before[t], before[k]),
        after.to_multiset() == before.to_multiset().remove(before[k]),
    ensures
        search_run(search_start(start, finish), SearchPhase::Searching, finish, blocked, steps + 1) == (
            if before[k].1 == finish {
                ((cost, came, after.to_multiset()), SearchPhase::Arrived)
            } else {
                (relax_moves((cost, came, after.to_multiset()), before[k].1, cost[spec_cell_index(before[k].1)], finish,
                    spec_moves(before[k].1, blocked)), SearchPhase::Searching)
            }
        ),
{
    lemma_frontier_multiset(before);
    let bm = before.to_multiset();
    let e = before[k];
    assert(before.contains(e));
    assert forall|x: (i32, GridPos)| #[trigger] bm.contains(x) implies !entry_lt(x, e) by {
        assert(before.contains(x));
        let t = choose|t: int| 0 <= t < before.len() && before[t] == x;
        assert(!entry_lt(before[t], e));
    }
    lemma_smallest_entry(bm, e);
    assert(bm.len() > 0);
    lemma_run_step(search_start(start, finish), finish, blocked, steps);
}


/// Relaxing one more move extends the relaxation of the moves before it.
proof fn lemma_relax_moves_next(
    s0: (Seq<i32>, Seq<GridPos>, vstd::multiset::Multiset<(i32, GridPos)>),
    current: GridPos,
    base: i32,
    finish: GridPos,
    ms: Seq<(GridPos, i32)>,
    j: int,
)
    requires
        0 <= j < ms.len(),
    ensures
        relax_moves(s0, current, base, finish, ms.subrange(0, j + 1)) == {
            let t = relax_moves(s0, current, base, finish, ms.subrange(0, j));
            let nb = ms[j].0;
            let new_cost = base + ms[j].1;
            if new_cost < t.0[spec_cell_index(nb)] {
                (
                    t.0.update(spec_cell_index(nb), new_cost as i32),
                    t.1.update(spec_cell_index(nb), current),
                    t.2.insert(((new_cost + spec_heuristic(nb, finish)) as i32, nb)),
                )
            } else {
                t
            }
        },
{
    assert(ms.subrange(0, j + 1).drop_last() =~= ms.subrange(0, j));
    assert(ms.subrange(0, j + 1).last() == ms[j]);
}

} // verus!
