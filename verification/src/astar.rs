use vstd::multiset::Multiset;
use vstd::prelude::*;

use crate::grid::{CELL_COUNT, GridPos, spec_cell_index};
use crate::path::{spec_heuristic, spec_moves};
use crate::search::{UNREACHED, entry_lt};

verus! {

// A search state is a triple: the cost and the predecessor recorded for each
// cell (by cell index), and the entries waiting in the frontier.

/// Whether the search is still going, has taken the finish out of the
/// frontier, or has emptied the frontier.
pub enum SearchPhase {
    Searching,
    Arrived,
    Exhausted,
}

/// The smallest entry of the frontier in (priority, column, row) order.
pub open spec fn smallest_entry(f: Multiset<(i32, GridPos)>) -> (i32, GridPos) {
    choose|e: (i32, GridPos)| f.contains(e) && forall|x: (i32, GridPos)| #[trigger] f.contains(x) ==> !entry_lt(x, e)
}

/// The state before the first step: only `start` is reached, at cost zero,
/// and it waits in the frontier.
pub open spec fn search_start(start: GridPos, finish: GridPos) -> (Seq<i32>, Seq<GridPos>, Multiset<(i32, GridPos)>) {
    (
        Seq::new(CELL_COUNT as nat, |i: int| if i == spec_cell_index(start) { 0i32 } else { UNREACHED }),
        Seq::new(CELL_COUNT as nat, |i: int| start),
        seq![(spec_heuristic(start, finish) as i32, start)].to_multiset(),
    )
}

/// Relaxes the moves `ms` out of `current` (reached at cost `base`) in
/// order: a neighbour whose recorded cost would drop takes the new cost,
/// `current` as predecessor, and a frontier entry at its new priority.
pub open spec fn relax_moves(
    s: (Seq<i32>, Seq<GridPos>, Multiset<(i32, GridPos)>),
    current: GridPos,
    base: i32,
    finish: GridPos,
    ms: Seq<(GridPos, i32)>,
) -> (Seq<i32>, Seq<GridPos>, Multiset<(i32, GridPos)>)
    decreases ms.len(),
{
    if ms.len() == 0 {
        s
    } else {
        let t = relax_moves(s, current, base, finish, ms.drop_last());
        let nb = ms.last().0;
        let new_cost = base + ms.last().1;
        if new_cost < t.0[spec_cell_index(nb)] {
            (
                t.0.update(spec_cell_index(nb), new_cost as i32),
                t.1.update(spec_cell_index(nb), current),
                t.2.insert(((new_cost + spec_heuristic(nb, finish)) as i32, nb)),
            )
        } else {
            t
        }
    }
}

/// One step: take the smallest entry out of the frontier; stop there if it
/// is the finish, otherwise relax every move out of its cell.
pub open spec fn search_step(
    s: (Seq<i32>, Seq<GridPos>, Multiset<(i32, GridPos)>),
    finish: GridPos,
    blocked: Set<GridPos>,
) -> ((Seq<i32>, Seq<GridPos>, Multiset<(i32, GridPos)>), SearchPhase) {
    if s.2.len() == 0 {
        (s, SearchPhase::Exhausted)
    } else {
        let e = smallest_entry(s.2);
        let rest = (s.0, s.1, s.2.remove(e));
        if e.1 == finish {
            (rest, SearchPhase::Arrived)
        } else {
            (relax_moves(rest, e.1, s.0[spec_cell_index(e.1)], finish, spec_moves(e.1, blocked)), SearchPhase::Searching)
        }
    }
}

/// `n` steps from `s`, standing still once the search has stopped.
pub open spec fn search_run(
    s: (Seq<i32>, Seq<GridPos>, Multiset<(i32, GridPos)>),
    phase: SearchPhase,
    finish: GridPos,
    blocked: Set<GridPos>,
    n: nat,
) -> ((Seq<i32>, Seq<GridPos>, Multiset<(i32, GridPos)>), SearchPhase)
    decreases n,
{
    if n == 0 || phase != SearchPhase::Searching {
        (s, phase)
    } else {
        let next = search_step(s, finish, blocked);
        search_run(next.0, next.1, finish, blocked, (n - 1) as nat)
    }
}

/// The search from `start` has taken `finish` out of the frontier within `n`
/// steps.
pub open spec fn arrives_within(start: GridPos, finish: GridPos, blocked: Set<GridPos>, n: nat) -> bool {
    search_run(search_start(start, finish), SearchPhase::Searching, finish, blocked, n).1 == SearchPhase::Arrived
}

/// The predecessor links from `p` back to `start`, in travel order; `fuel`
/// bounds the number of links followed.
pub open spec fn trace_back(came: Seq<GridPos>, start: GridPos, p: GridPos, fuel: nat) -> Seq<GridPos>
    decreases fuel,
{
    if p == start || fuel == 0 {
        seq![p]
    } else {
        trace_back(came, start, came[spec_cell_index(p)], (fuel - 1) as nat).push(p)
    }
}

/// The route the search returns: once it has taken `finish` out of the
/// frontier, the predecessor links from `finish` back to `start`.
pub open spec fn search_route(start: GridPos, finish: GridPos, blocked: Set<GridPos>) -> Seq<GridPos> {
    let n = choose|n: nat| arrives_within(start, finish, blocked, n);
    let s = search_run(search_start(start, finish), SearchPhase::Searching, finish, blocked, n).0;
    trace_back(s.1, start, finish, s.0[spec_cell_index(finish)] as nat)
}

/// A smallest entry of the frontier is the smallest entry.
pub proof fn lemma_smallest_entry(f: Multiset<(i32, GridPos)>, e: (i32, GridPos))
    requires
        f.contains(e),
        forall|x: (i32, GridPos)| #[trigger] f.contains(x) ==> !entry_lt(x, e),
    ensures
        smallest_entry(f) == e,
{
    let c = smallest_entry(f);
    assert(f.contains(c) && forall|x: (i32, GridPos)| #[trigger] f.contains(x) ==> !entry_lt(x, c));
    assert(!entry_lt(e, c));
    assert(!entry_lt(c, e));
    assert(c.1 == e.1);
}

/// One more step from a state that is still searching.
pub proof fn lemma_run_step(
    s: (Seq<i32>, Seq<GridPos>, Multiset<(i32, GridPos)>),
    finish: GridPos,
    blocked: Set<GridPos>,
    n: nat,
)
    requires
        search_run(s, SearchPhase::Searching, finish, blocked, n).1 == SearchPhase::Searching,
    ensures
        search_run(s, SearchPhase::Searching, finish, blocked, n + 1)
            == search_step(search_run(s, SearchPhase::Searching, finish, blocked, n).0, finish, blocked),
    decreases n,
{
    reveal_with_fuel(search_run, 2);
    if n > 0 {
        let next = search_step(s, finish, blocked);
        if next.1 == SearchPhase::Searching {
            lemma_run_step(next.0, finish, blocked, (n - 1) as nat);
        }
    }
}

/// A stopped search stays where it stopped.
pub proof fn lemma_run_stays(
    s: (Seq<i32>, Seq<GridPos>, Multiset<(i32, GridPos)>),
    phase: SearchPhase,
    finish: GridPos,
    blocked: Set<GridPos>,
    a: nat,
    b: nat,
)
    requires
        a <= b,
        search_run(s, phase, finish, blocked, a).1 != SearchPhase::Searching,
    ensures
        search_run(s, phase, finish, blocked, b) == search_run(s, phase, finish, blocked, a),
    decreases a,
{
    if phase == SearchPhase::Searching && a > 0 {
        let next = search_step(s, finish, blocked);
        lemma_run_stays(next.0, next.1, finish, blocked, (a - 1) as nat, (b - 1) as nat);
    }
}

/// Where the search arrives, it arrives in one state only.
pub proof fn lemma_route_state(start: GridPos, finish: GridPos, blocked: Set<GridPos>, n: nat)
    requires
        arrives_within(start, finish, blocked, n),
    ensures
        search_route(start, finish, blocked) == {
            let s = search_run(search_start(start, finish), SearchPhase::Searching, finish, blocked, n).0;
            trace_back(s.1, start, finish, s.0[spec_cell_index(finish)] as nat)
        },
{
    let m = choose|m: nat| arrives_within(start, finish, blocked, m);
    let s0 = search_start(start, finish);
    if m <= n {
        lemma_run_stays(s0, SearchPhase::Searching, finish, blocked, m, n);
    } else {
        lemma_run_stays(s0, SearchPhase::Searching, finish, blocked, n, m);
    }
}

/// Taking entry `k` out by moving the last entry into its place removes one
/// copy of it.
pub proof fn lemma_swap_remove_multiset(s: Seq<(i32, GridPos)>, k: int)
    requires
        0 <= k < s.len(),
    ensures
        s.update(k, s.last()).drop_last().to_multiset() =~= s.to_multiset().remove(s[k]),
{
    broadcast use vstd::seq_lib::group_to_multiset_ensures;
    let t = s.update(k, s.last()).drop_last();
    if k == s.len() - 1 {
        assert(t =~= s.remove(k));
    } else {
        assert(t.remove(k).push(s.last()) =~= s.remove(k));
        assert(t[k] == s.last());
        assert(t.contains(s.last()));
        assert(t.to_multiset().count(s.last()) > 0);
        assert(s.remove(k).to_multiset() =~= t.remove(k).to_multiset().insert(s.last()));
        assert(t.remove(k).to_multiset() =~= t.to_multiset().remove(s.last()));
        assert(t.to_multiset().remove(s.last()).insert(s.last()) =~= t.to_multiset());
    }
}


/// A frontier's entries and their count, as a multiset.
pub proof fn lemma_frontier_multiset(s: Seq<(i32, GridPos)>)
    ensures
        forall|x: (i32, GridPos)| #[trigger] s.to_multiset().contains(x) <==> s.contains(x),
        s.to_multiset().len() == s.len(),
{
    broadcast use vstd::seq_lib::group_to_multiset_ensures;
    assert forall|x: (i32, GridPos)| #[trigger] s.to_multiset().contains(x) <==> s.contains(x) by {
        assert(s.contains(x) <==> s.to_multiset().count(x) > 0);
    }
}

/// Pushing an entry adds one copy of it.
pub proof fn lemma_push_multiset(s: Seq<(i32, GridPos)>, a: (i32, GridPos))
    ensures
        s.push(a).to_multiset() == s.to_multiset().insert(a),
{
    broadcast use vstd::seq_lib::group_to_multiset_ensures;
    assert(s.push(a).to_multiset() =~= s.to_multiset().insert(a));
}

} // verus!
