use vstd::prelude::*;

use crate::grid::{GridPos, spec_in_bounds};
use crate::path::{dir_dx, dir_dy, is_walk, is_walk_between, move_ok, reachable, shift, valid_step};
use crate::route::{route_exists, route_targets};

verus! {

/// On a board with nothing blocked, any cell can be walked to from any other.
pub proof fn lemma_reachable_on_empty_board(a: GridPos, b: GridPos)
    requires
        spec_in_bounds(a),
        spec_in_bounds(b),
    ensures
        reachable(a, b, Set::<GridPos>::empty()),
    decreases (if a.col < b.col { b.col - a.col } else { a.col - b.col }) + (if a.row < b.row { b.row - a.row } else { a.row - b.row }),
{
    let e = Set::<GridPos>::empty();
    if a == b {
        let w = seq![a];
        assert(is_walk_between(w, a, b, e));
    } else {
        let k: int = if a.col < b.col { 0 } else if a.col > b.col { 1 } else if a.row < b.row { 2 } else { 3 };
        let c = shift(a, dir_dx(k), dir_dy(k));
        assert(spec_in_bounds(c));
        assert(move_ok(a, k, e));
        assert(valid_step(a, c, e));
        lemma_reachable_on_empty_board(c, b);
        let w = choose|w: Seq<GridPos>| is_walk_between(w, c, b, e);
        let w2 = seq![a] + w;
        assert forall|i: int| 0 <= i < w2.len() - 1 implies valid_step(w2[i], #[trigger] w2[i + 1], e) by {
            if i == 0 {
                assert(w2[1] == c);
            } else {
                assert(w2[i] == w[i - 1]);
                assert(w2[i + 1] == w[(i - 1) + 1]);
            }
        }
        assert(is_walk_between(w2, a, b, e));
    }
}

/// With nothing blocked, a route through in-bounds checkpoints always exists.
pub proof fn lemma_route_exists_on_empty_board(checkpoints: Seq<GridPos>)
    requires
        forall|i: int| 0 <= i < checkpoints.len() ==> spec_in_bounds(#[trigger] checkpoints[i]),
    ensures
        route_exists(checkpoints, Set::<GridPos>::empty()),
{
    let t = route_targets(checkpoints);
    assert forall|i: int| 0 <= i < t.len() - 1 implies reachable(#[trigger] t[i], t[i + 1], Set::<GridPos>::empty()) by {
        assert forall|j: int| 0 <= j < t.len() implies spec_in_bounds(#[trigger] t[j]) by {
            if 0 < j < t.len() - 1 {
                assert(t[j] == checkpoints[j - 1]);
            }
        }
        lemma_reachable_on_empty_board(t[i], t[i + 1]);
    }
}

} // verus!
