use vstd::prelude::*;

use crate::cells::CellSet;
use crate::grid::{GridPos, finish_pos, spec_finish_pos, spec_in_bounds, spec_start_pos, start_pos};
use crate::path::{dir_dx, dir_dy, is_open, is_shortest_walk, is_walk, is_walk_between, move_ok, reachable, shift, valid_step, lemma_step_target_open};
use crate::astar::search_route;
use crate::search::find_path_between;

verus! {

pub open spec fn sgn(x: int) -> int {
    if x > 0 { 1 } else if x < 0 { -1 } else { 0 }
}

pub open spec fn cell(col: int, row: int) -> GridPos {
    GridPos { col: col as i32, row: row as i32 }
}

/// The supercover walk of `line_of_sight`, from a cell `done_x`/`done_y`
/// steps along, to the end of the segment: true when no cell it enters is
/// blocked and no corner it crosses has a blocked flank.
pub open spec fn sight_walk(
    col: int,
    row: int,
    done_x: int,
    done_y: int,
    steps_x: int,
    steps_y: int,
    sign_x: int,
    sign_y: int,
    blocked: Set<GridPos>,
) -> bool
    decreases (steps_x - done_x) + (steps_y - done_y) when 0 <= done_x <= steps_x && 0 <= done_y <= steps_y
{
    if !(done_x < steps_x || done_y < steps_y) {
        true
    } else {
        proof {
            lemma_step_bounds(done_x, done_y, steps_x, steps_y);
        }
        let compare = (1 + 2 * done_x) * steps_y - (1 + 2 * done_y) * steps_x;
        if compare == 0 {
            if blocked.contains(cell(col + sign_x, row)) || blocked.contains(cell(col, row + sign_y)) {
                false
            } else if blocked.contains(cell(col + sign_x, row + sign_y)) {
                false
            } else {
                sight_walk(col + sign_x, row + sign_y, done_x + 1, done_y + 1, steps_x, steps_y, sign_x, sign_y, blocked)
            }
        } else if compare < 0 {
            if blocked.contains(cell(col + sign_x, row)) {
                false
            } else {
                sight_walk(col + sign_x, row, done_x + 1, done_y, steps_x, steps_y, sign_x, sign_y, blocked)
            }
        } else {
            if blocked.contains(cell(col, row + sign_y)) {
                false
            } else {
                sight_walk(col, row + sign_y, done_x, done_y + 1, steps_x, steps_y, sign_x, sign_y, blocked)
            }
        }
    }
}

/// Whether the straight segment between the centres of `a` and `b` stays on
/// open ground (every touched cell open; both flanks open at an exact corner
/// crossing).
pub open spec fn spec_line_of_sight(a: GridPos, b: GridPos, blocked: Set<GridPos>) -> bool {
    let dx = b.col - a.col;
    let dy = b.row - a.row;
    !blocked.contains(a) && sight_walk(
        a.col as int,
        a.row as int,
        0,
        0,
        if dx < 0 { -dx } else { dx },
        if dy < 0 { -dy } else { dy },
        sgn(dx),
        sgn(dy),
        blocked,
    )
}

pub proof fn lemma_step_bounds(done_x: int, done_y: int, steps_x: int, steps_y: int)
    requires
        0 <= done_x <= steps_x,
        0 <= done_y <= steps_y,
        done_x < steps_x || done_y < steps_y,
    ensures
        ({
            let compare = (1 + 2 * done_x) * steps_y - (1 + 2 * done_y) * steps_x;
            &&& compare == 0 ==> done_x < steps_x && done_y < steps_y
            &&& compare < 0 ==> done_x < steps_x
            &&& compare > 0 ==> done_y < steps_y
        }),
{
    let compare = (1 + 2 * done_x) * steps_y - (1 + 2 * done_y) * steps_x;
    if done_x == steps_x {
        assert(compare > 0) by (nonlinear_arith)
            requires
                done_x == steps_x,
                0 <= done_y < steps_y,
                0 <= steps_x,
                compare == (1 + 2 * done_x) * steps_y - (1 + 2 * done_y) * steps_x,
        ;
    }
    if done_y == steps_y {
        assert(compare < 0) by (nonlinear_arith)
            requires
                done_y == steps_y,
                0 <= done_x < steps_x,
                0 <= steps_y,
                compare == (1 + 2 * done_x) * steps_y - (1 + 2 * done_y) * steps_x,
        ;
    }
}

/// Whether the straight segment between two cell centres stays entirely on
/// open ground. Every cell the line touches is checked (supercover walk), and
/// an exact corner crossing needs both flanking cells open.
pub fn line_of_sight(a: GridPos, b: GridPos, blocked: &CellSet) -> (visible: bool)
    requires
        blocked.wf(),
        spec_in_bounds(a),
        spec_in_bounds(b),
    ensures
        visible == spec_line_of_sight(a, b, blocked@),
{
    if blocked.contains(a) {
        return false;
    }
    let mut col = a.col;
    let mut row = a.row;
    let steps_x: i32 = if b.col >= a.col { b.col - a.col } else { a.col - b.col };
    let steps_y: i32 = if b.row >= a.row { b.row - a.row } else { a.row - b.row };
    let sign_x: i32 = if b.col > a.col { 1 } else if b.col < a.col { -1 } else { 0 };
    let sign_y: i32 = if b.row > a.row { 1 } else if b.row < a.row { -1 } else { 0 };
    let mut done_x: i32 = 0;
    let mut done_y: i32 = 0;
    while done_x < steps_x || done_y < steps_y
        invariant
            blocked.wf(),
            0 <= steps_x < 116,
            0 <= steps_y < 68,
            0 <= done_x <= steps_x,
            0 <= done_y <= steps_y,
            sign_x == sgn(b.col - a.col),
            sign_y == sgn(b.row - a.row),
            steps_x == (if b.col - a.col < 0 { -(b.col - a.col) } else { b.col - a.col }),
            steps_y == (if b.row - a.row < 0 { -(b.row - a.row) } else { b.row - a.row }),
            col == a.col + (if sign_x >= 0 { done_x as int } else { -done_x }),
            row == a.row + (if sign_y >= 0 { done_y as int } else { -done_y }),
            spec_in_bounds(a),
            spec_in_bounds(b),
            spec_line_of_sight(a, b, blocked@) == sight_walk(col as int, row as int, done_x as int, done_y as int,
                steps_x as int, steps_y as int, sign_x as int, sign_y as int, blocked@),
        decreases (steps_x - done_x) + (steps_y - done_y),
    {
        proof {
            lemma_step_bounds(done_x as int, done_y as int, steps_x as int, steps_y as int);
            assert((1 + 2 * done_x) * steps_y <= 231 * 68) by (nonlinear_arith)
                requires
                    0 <= done_x <= steps_x < 116,
                    0 <= steps_y < 68,
            ;
            assert((1 + 2 * done_y) * steps_x <= 135 * 116) by (nonlinear_arith)
                requires
                    0 <= done_y <= steps_y < 68,
                    0 <= steps_x < 116,
            ;
            assert(0 <= (1 + 2 * done_x) * steps_y) by (nonlinear_arith)
                requires
                    0 <= done_x,
                    0 <= steps_y,
            ;
            assert(0 <= (1 + 2 * done_y) * steps_x) by (nonlinear_arith)
                requires
                    0 <= done_y,
                    0 <= steps_x,
            ;
        }
        let compare = (1 + 2 * done_x) * steps_y - (1 + 2 * done_y) * steps_x;
        if compare == 0 {
            if blocked.contains(GridPos::new(col + sign_x, row)) || blocked.contains(GridPos::new(col, row + sign_y)) {
                return false;
            }
            col = col + sign_x;
            row = row + sign_y;
            done_x = done_x + 1;
            done_y = done_y + 1;
        } else if compare < 0 {
            col = col + sign_x;
            done_x = done_x + 1;
        } else {
            row = row + sign_y;
            done_y = done_y + 1;
        }
        if blocked.contains(GridPos::new(col, row)) {
            return false;
        }
    }
    true
}

} // verus!

verus! {

/// The waypoint pass of `smooth_path` from position `index`, with `anchor`
/// the last kept waypoint and `acc` the waypoints kept so far.
pub open spec fn smooth_from(
    path: Seq<GridPos>,
    blocked: Set<GridPos>,
    index: int,
    anchor: GridPos,
    acc: Seq<GridPos>,
) -> Seq<GridPos>
    decreases path.len() - index,
{
    if index < 1 || index >= path.len() - 1 {
        acc.push(path.last())
    } else if !spec_line_of_sight(anchor, path[index + 1], blocked) {
        smooth_from(path, blocked, index + 1, path[index], acc.push(path[index]))
    } else {
        smooth_from(path, blocked, index + 1, anchor, acc)
    }
}

/// The string-pulled route: a waypoint is kept only when the previous kept
/// waypoint loses sight of the cell after it; both ends are always kept.
pub open spec fn spec_smooth_path(path: Seq<GridPos>, blocked: Set<GridPos>) -> Seq<GridPos> {
    if path.len() <= 2 {
        path
    } else {
        smooth_from(path, blocked, 1, path[0], seq![path[0]])
    }
}


/// One allowed move from an open cell is a clear straight segment: the
/// target is open and, for a diagonal, so are both cells it passes between.
pub proof fn lemma_step_in_sight(a: GridPos, b: GridPos, blocked: Set<GridPos>)
    requires
        spec_in_bounds(a),
        !blocked.contains(a),
        valid_step(a, b, blocked),
    ensures
        spec_line_of_sight(a, b, blocked),
{
    let k = choose|k: int| 0 <= k < 8 && b == shift(a, dir_dx(k), dir_dy(k)) && move_ok(a, k, blocked);
    let dx = dir_dx(k);
    let dy = dir_dy(k);
    assert(is_open(b, blocked));
    assert(b.col == a.col + dx && b.row == a.row + dy);
    let sx = sgn(dx);
    let sy = sgn(dy);
    let steps_x = if dx < 0 { -dx } else { dx };
    let steps_y = if dy < 0 { -dy } else { dy };
    assert(cell(a.col + sx, a.row + sy) == b);
    if k >= 4 {
        assert(cell(a.col + sx, a.row as int) == shift(a, dx, 0));
        assert(cell(a.col as int, a.row + sy) == shift(a, 0, dy));
        assert(sight_walk(a.col + sx, a.row + sy, 1, 1, 1, 1, sx, sy, blocked));
    } else if dx != 0 {
        assert(cell(a.col + sx, a.row as int) == b);
        assert(sight_walk(a.col + sx, a.row as int, 1, 0, 1, 0, sx, sy, blocked));
    } else {
        assert(cell(a.col as int, a.row + sy) == b);
        assert(sight_walk(a.col as int, a.row + sy, 0, 1, 0, 1, sx, sy, blocked));
    }
    assert(sight_walk(a.col as int, a.row as int, 0, 0, steps_x, steps_y, sx, sy, blocked));
}

/// Each kept waypoint sees the next one.
pub open spec fn segments_clear(route: Seq<GridPos>, blocked: Set<GridPos>) -> bool {
    forall|i: int| 0 <= i < route.len() - 1 ==> spec_line_of_sight(route[i], #[trigger] route[i + 1], blocked)
}

/// A walk over open cells.
pub open spec fn open_walk(path: Seq<GridPos>, blocked: Set<GridPos>) -> bool {
    &&& is_walk(path, blocked)
    &&& forall|i: int| 0 <= i < path.len() ==> is_open(#[trigger] path[i], blocked)
}

proof fn lemma_smooth_from_clear(path: Seq<GridPos>, blocked: Set<GridPos>, index: int, anchor: GridPos, acc: Seq<GridPos>)
    requires
        open_walk(path, blocked),
        path.len() > 2,
        1 <= index <= path.len() - 1,
        acc.len() > 0,
        acc.last() == anchor,
        segments_clear(acc, blocked),
        spec_line_of_sight(anchor, path[index], blocked),
    ensures
        segments_clear(smooth_from(path, blocked, index, anchor, acc), blocked),
    decreases path.len() - index,
{
    if index >= path.len() - 1 {
        let r = acc.push(path.last());
        assert forall|i: int| 0 <= i < r.len() - 1 implies spec_line_of_sight(r[i], #[trigger] r[i + 1], blocked) by {
            if i < acc.len() - 1 {
                assert(r[i] == acc[i] && r[i + 1] == acc[i + 1]);
            }
        }
    } else if !spec_line_of_sight(anchor, path[index + 1], blocked) {
        let r = acc.push(path[index]);
        assert forall|i: int| 0 <= i < r.len() - 1 implies spec_line_of_sight(r[i], #[trigger] r[i + 1], blocked) by {
            if i < acc.len() - 1 {
                assert(r[i] == acc[i] && r[i + 1] == acc[i + 1]);
            }
        }
        assert(valid_step(path[index], path[index + 1], blocked));
        assert(is_open(path[index], blocked));
        lemma_step_in_sight(path[index], path[index + 1], blocked);
        lemma_smooth_from_clear(path, blocked, index + 1, path[index], r);
    } else {
        lemma_smooth_from_clear(path, blocked, index + 1, anchor, acc);
    }
}

/// String-pulling keeps the route clear: in the smoothed form of a walk over
/// open cells, every waypoint has a clear line of sight to the next.
pub proof fn law_smoothed_walk_clear(path: Seq<GridPos>, blocked: Set<GridPos>)
    requires
        open_walk(path, blocked),
    ensures
        segments_clear(spec_smooth_path(path, blocked), blocked),
{
    if path.len() <= 2 {
        assert forall|i: int| 0 <= i < path.len() - 1 implies spec_line_of_sight(path[i], #[trigger] path[i + 1], blocked) by {
            assert(valid_step(path[i], path[i + 1], blocked));
            lemma_step_in_sight(path[i], path[i + 1], blocked);
        }
    } else {
        assert(valid_step(path[0int], path[0int + 1], blocked));
        lemma_step_in_sight(path[0], path[1], blocked);
        lemma_smooth_from_clear(path, blocked, 1, path[0], seq![path[0]]);
    }
}

/// `sub` picks elements of `full` in order.
pub open spec fn is_subsequence(sub: Seq<GridPos>, full: Seq<GridPos>) -> bool {
    exists|idx: Seq<int>| #![trigger idx.len()]
        idx.len() == sub.len()
        && (forall|i: int| 0 <= i < idx.len() ==> 0 <= #[trigger] idx[i] < full.len() && sub[i] == full[idx[i]])
        && (forall|i: int, j: int| 0 <= i < j < idx.len() ==> #[trigger] idx[i] < #[trigger] idx[j])
}

/// String-pulls a grid path into the fewest waypoints that still avoid
/// obstacles: a waypoint is kept only when the previous anchor loses line of
/// sight to the next point. The two ends are always preserved.
pub fn smooth_path(path: &Vec<GridPos>, blocked: &CellSet) -> (result: Vec<GridPos>)
    requires
        blocked.wf(),
        forall|i: int| 0 <= i < path@.len() ==> spec_in_bounds(#[trigger] path@[i]),
    ensures
        result@ == spec_smooth_path(path@, blocked@),
        is_subsequence(result@, path@),
        path@.len() > 0 ==> result@.len() > 0 && result@[0] == path@[0] && result@.last() == path@.last(),
{
    let n = path.len();
    if n <= 2 {
        let mut copy: Vec<GridPos> = Vec::new();
        let mut i: usize = 0;
        while i < n
            invariant
                n == path@.len(),
                i <= n,
                copy@ == path@.subrange(0, i as int),
            decreases n - i,
        {
            copy.push(path[i]);
            i = i + 1;
        }
        proof {
            assert(copy@ =~= path@);
            let idx = Seq::new(n as nat, |i: int| i);
            assert(idx.len() == copy@.len());
        }
        return copy;
    }
    let mut result: Vec<GridPos> = Vec::new();
    result.push(path[0]);
    let mut anchor = path[0];
    let ghost mut idx: Seq<int> = seq![0];
    let mut index: usize = 1;
    while index < n - 1
        invariant
            blocked.wf(),
            n == path@.len(),
            n > 2,
            forall|i: int| 0 <= i < path@.len() ==> spec_in_bounds(#[trigger] path@[i]),
            1 <= index <= n - 1,
            spec_smooth_path(path@, blocked@) == smooth_from(path@, blocked@, index as int, anchor, result@),
            result@.len() > 0,
            result@[0] == path@[0],
            anchor == result@.last(),
            spec_in_bounds(anchor),
            idx.len() == result@.len(),
            idx[0] == 0,
            forall|i: int| 0 <= i < idx.len() ==> 0 <= #[trigger] idx[i] < index && result@[i] == path@[idx[i]],
            forall|i: int, j: int| 0 <= i < j < idx.len() ==> #[trigger] idx[i] < #[trigger] idx[j],
        decreases n - index,
    {
        if !line_of_sight(anchor, path[index + 1], blocked) {
            result.push(path[index]);
            anchor = path[index];
            proof {
                idx = idx.push(index as int);
            }
        }
        index = index + 1;
    }
    result.push(path[n - 1]);
    proof {
        idx = idx.push(n - 1);
        assert(idx.len() == result@.len());
        assert(forall|i: int| 0 <= i < idx.len() ==> 0 <= #[trigger] idx[i] < path@.len() && result@[i] == path@[idx[i]]);
        assert(is_subsequence(result@, path@));
    }
    result
}

/// The cells a complete route must visit in order: start, the checkpoints,
/// finish.
pub open spec fn route_targets(checkpoints: Seq<GridPos>) -> Seq<GridPos> {
    seq![spec_start_pos()] + checkpoints + seq![spec_finish_pos()]
}

/// Every leg between consecutive targets can be walked.
pub open spec fn route_exists(checkpoints: Seq<GridPos>, blocked: Set<GridPos>) -> bool {
    let t = route_targets(checkpoints);
    forall|i: int| 0 <= i < t.len() - 1 ==> reachable(#[trigger] t[i], t[i + 1], blocked)
}

/// `path` starts at the first target, ends at the last, and passes through
/// every target in order.
pub open spec fn visits_in_order(path: Seq<GridPos>, targets: Seq<GridPos>) -> bool {
    exists|marks: Seq<int>| #![trigger marks.len()]
        marks.len() == targets.len()
        && marks[0] == 0
        && marks.last() == path.len() - 1
        && (forall|i: int| 0 <= i < marks.len() ==> 0 <= #[trigger] marks[i] < path.len() && path[marks[i]] == targets[i])
        && (forall|i: int, j: int| 0 <= i <= j < marks.len() ==> #[trigger] marks[i] <= #[trigger] marks[j])
}

/// Legs laid end to end: the first whole, each later one without its first
/// cell (the previous leg's last).
pub open spec fn join_legs(legs: Seq<Seq<GridPos>>) -> Seq<GridPos>
    decreases legs.len(),
{
    if legs.len() == 0 {
        Seq::empty()
    } else if legs.len() == 1 {
        legs[0]
    } else {
        join_legs(legs.drop_last()) + legs.last().drop_first()
    }
}

/// Each leg string-pulled.
pub open spec fn smooth_legs(legs: Seq<Seq<GridPos>>, blocked: Set<GridPos>) -> Seq<Seq<GridPos>> {
    legs.map_values(|l: Seq<GridPos>| spec_smooth_path(l, blocked))
}

/// `legs` holds one shortest walk for each pair of consecutive targets.
pub open spec fn shortest_legs(legs: Seq<Seq<GridPos>>, targets: Seq<GridPos>, blocked: Set<GridPos>) -> bool {
    &&& legs.len() == targets.len() - 1
    &&& forall|i: int| 0 <= i < legs.len() ==> is_shortest_walk(#[trigger] legs[i], targets[i], targets[i + 1], blocked)
}

/// The route `find_complete_path` lays around `blocked`: the search's legs,
/// string-pulled and joined (`found_route`); it passes every target in order
/// and each of its legs is a string-pulled shortest walk.
pub open spec fn planned_route(path: Seq<GridPos>, checkpoints: Seq<GridPos>, blocked: Set<GridPos>) -> bool {
    &&& path == found_route(checkpoints, blocked)
    &&& visits_in_order(path, route_targets(checkpoints))
    &&& exists|legs: Seq<Seq<GridPos>>| #[trigger] shortest_legs(legs, route_targets(checkpoints), blocked)
        && path == join_legs(smooth_legs(legs, blocked))
}

/// The legs the search returns between consecutive targets.
pub open spec fn searched_legs(targets: Seq<GridPos>, blocked: Set<GridPos>) -> Seq<Seq<GridPos>> {
    Seq::new((targets.len() - 1) as nat, |i: int| search_route(targets[i], targets[i + 1], blocked))
}

/// The route `find_complete_path` lays: the leg the search returns for each
/// pair of consecutive targets, string-pulled, joined end to end.
pub open spec fn found_route(checkpoints: Seq<GridPos>, blocked: Set<GridPos>) -> Seq<GridPos> {
    join_legs(smooth_legs(searched_legs(route_targets(checkpoints), blocked), blocked))
}

proof fn lemma_smooth_from_ends(path: Seq<GridPos>, blocked: Set<GridPos>, index: int, anchor: GridPos, acc: Seq<GridPos>)
    requires
        acc.len() > 0,
        path.len() > 0,
    ensures
        smooth_from(path, blocked, index, anchor, acc).len() > 0,
        smooth_from(path, blocked, index, anchor, acc)[0] == acc[0],
        smooth_from(path, blocked, index, anchor, acc).last() == path.last(),
    decreases path.len() - index,
{
    if index < 1 || index >= path.len() - 1 {
    } else if !spec_line_of_sight(anchor, path[index + 1], blocked) {
        lemma_smooth_from_ends(path, blocked, index + 1, path[index], acc.push(path[index]));
    } else {
        lemma_smooth_from_ends(path, blocked, index + 1, anchor, acc);
    }
}

/// String-pulling keeps both ends of a route.
pub proof fn lemma_smooth_ends(path: Seq<GridPos>, blocked: Set<GridPos>)
    requires
        path.len() > 0,
    ensures
        spec_smooth_path(path, blocked).len() > 0,
        spec_smooth_path(path, blocked)[0] == path[0],
        spec_smooth_path(path, blocked).last() == path.last(),
{
    if path.len() > 2 {
        lemma_smooth_from_ends(path, blocked, 1, path[0], seq![path[0]]);
    }
}

proof fn lemma_join_clear(legs: Seq<Seq<GridPos>>, blocked: Set<GridPos>)
    requires
        legs.len() >= 1,
        forall|i: int| 0 <= i < legs.len() ==> (#[trigger] legs[i]).len() >= 1 && segments_clear(legs[i], blocked),
        forall|i: int| 0 < i < legs.len() ==> (#[trigger] legs[i])[0] == legs[i - 1].last(),
    ensures
        join_legs(legs).len() >= 1,
        join_legs(legs)[0] == legs[0][0],
        join_legs(legs).last() == legs.last().last(),
        segments_clear(join_legs(legs), blocked),
    decreases legs.len(),
{
    if legs.len() > 1 {
        let front = legs.drop_last();
        assert forall|i: int| 0 <= i < front.len() implies (#[trigger] front[i]).len() >= 1 && segments_clear(front[i], blocked) by {
            assert(front[i] == legs[i]);
        }
        assert forall|i: int| 0 < i < front.len() implies (#[trigger] front[i])[0] == front[i - 1].last() by {
            assert(front[i] == legs[i]);
            assert(front[i - 1] == legs[i - 1]);
        }
        lemma_join_clear(front, blocked);
        let a = join_legs(front);
        let b = legs.last();
        assert(b == legs[legs.len() - 1]);
        assert(b[0] == legs[legs.len() - 2].last());
        assert(front.last() == legs[legs.len() - 2]);
        let r = a + b.drop_first();
        assert(join_legs(legs) == r);
        assert forall|i: int| 0 <= i < r.len() - 1 implies spec_line_of_sight(r[i], #[trigger] r[i + 1], blocked) by {
            if i < a.len() - 1 {
                assert(r[i] == a[i] && r[i + 1] == a[i + 1]);
            } else if i == a.len() - 1 {
                assert(r[i] == b[0] && r[i + 1] == b[1]);
                assert(spec_line_of_sight(b[0int], b[0int + 1], blocked));
            } else {
                let j = i - a.len() + 1;
                assert(r[i] == b[j] && r[i + 1] == b[j + 1]);
            }
        }
        if b.len() == 1 {
            assert(r =~= a);
        } else {
            assert(r.last() == b.last());
        }
    }
}

/// A planned route is clear end to end: when start, checkpoints and finish
/// are all open, enemies following it never cross a blocked cell or squeeze
/// between two blocked corners.
pub proof fn law_planned_route_clear(path: Seq<GridPos>, checkpoints: Seq<GridPos>, blocked: Set<GridPos>)
    requires
        planned_route(path, checkpoints, blocked),
        forall|i: int| 0 <= i < route_targets(checkpoints).len() ==> is_open(#[trigger] route_targets(checkpoints)[i], blocked),
    ensures
        segments_clear(path, blocked),
{
    let t = route_targets(checkpoints);
    let legs = choose|legs: Seq<Seq<GridPos>>| #[trigger] shortest_legs(legs, t, blocked)
        && path == join_legs(smooth_legs(legs, blocked));
    let sm = smooth_legs(legs, blocked);
    assert forall|i: int| 0 <= i < sm.len() implies (#[trigger] sm[i]).len() >= 1 && segments_clear(sm[i], blocked)
        && sm[i][0] == t[i] && sm[i].last() == t[i + 1] by {
        let leg = legs[i];
        assert(is_shortest_walk(leg, t[i], t[i + 1], blocked));
        assert(is_open(t[i], blocked));
        assert forall|k: int| 0 <= k < leg.len() implies is_open(#[trigger] leg[k], blocked) by {
            if k > 0 {
                assert(valid_step(leg[k - 1], leg[(k - 1) + 1], blocked));
                lemma_step_target_open(leg[k - 1], leg[k], blocked);
            }
        }
        law_smoothed_walk_clear(leg, blocked);
        lemma_smooth_ends(leg, blocked);
    }
    assert forall|i: int| 0 < i < sm.len() implies (#[trigger] sm[i])[0] == sm[i - 1].last() by {
        assert(sm[i][0] == t[i]);
        assert(sm[i - 1].last() == t[(i - 1) + 1]);
    }
    lemma_join_clear(sm, blocked);
}


/// Fewer blocked cells never hide what more blocked cells let through.
proof fn lemma_sight_walk_monotone(
    col: int,
    row: int,
    done_x: int,
    done_y: int,
    steps_x: int,
    steps_y: int,
    sign_x: int,
    sign_y: int,
    fewer: Set<GridPos>,
    more: Set<GridPos>,
)
    requires
        fewer.subset_of(more),
        0 <= done_x <= steps_x,
        0 <= done_y <= steps_y,
        sight_walk(col, row, done_x, done_y, steps_x, steps_y, sign_x, sign_y, more),
    ensures
        sight_walk(col, row, done_x, done_y, steps_x, steps_y, sign_x, sign_y, fewer),
    decreases (steps_x - done_x) + (steps_y - done_y),
{
    if done_x < steps_x || done_y < steps_y {
        lemma_step_bounds(done_x, done_y, steps_x, steps_y);
        let compare = (1 + 2 * done_x) * steps_y - (1 + 2 * done_y) * steps_x;
        if compare == 0 {
            lemma_sight_walk_monotone(col + sign_x, row + sign_y, done_x + 1, done_y + 1, steps_x, steps_y, sign_x, sign_y, fewer, more);
        } else if compare < 0 {
            lemma_sight_walk_monotone(col + sign_x, row, done_x + 1, done_y, steps_x, steps_y, sign_x, sign_y, fewer, more);
        } else {
            lemma_sight_walk_monotone(col, row + sign_y, done_x, done_y + 1, steps_x, steps_y, sign_x, sign_y, fewer, more);
        }
    }
}

/// With nothing blocked every sight walk is clear.
proof fn lemma_sight_walk_open(
    col: int,
    row: int,
    done_x: int,
    done_y: int,
    steps_x: int,
    steps_y: int,
    sign_x: int,
    sign_y: int,
)
    requires
        0 <= done_x <= steps_x,
        0 <= done_y <= steps_y,
    ensures
        sight_walk(col, row, done_x, done_y, steps_x, steps_y, sign_x, sign_y, Set::empty()),
    decreases (steps_x - done_x) + (steps_y - done_y),
{
    if done_x < steps_x || done_y < steps_y {
        lemma_step_bounds(done_x, done_y, steps_x, steps_y);
        let compare = (1 + 2 * done_x) * steps_y - (1 + 2 * done_y) * steps_x;
        if compare == 0 {
            lemma_sight_walk_open(col + sign_x, row + sign_y, done_x + 1, done_y + 1, steps_x, steps_y, sign_x, sign_y);
        } else if compare < 0 {
            lemma_sight_walk_open(col + sign_x, row, done_x + 1, done_y, steps_x, steps_y, sign_x, sign_y);
        } else {
            lemma_sight_walk_open(col, row + sign_y, done_x, done_y + 1, steps_x, steps_y, sign_x, sign_y);
        }
    }
}

/// Where a sight walk ends, along one axis.
pub open spec fn walk_end(pos: int, done: int, steps: int, sign: int) -> int {
    if sign == 1 { pos + (steps - done) } else if sign == -1 { pos - (steps - done) } else { pos }
}

/// A sight walk that still has to move is blocked when its end cell is.
proof fn lemma_sight_walk_blocked_end(
    col: int,
    row: int,
    done_x: int,
    done_y: int,
    steps_x: int,
    steps_y: int,
    sign_x: int,
    sign_y: int,
    blocked: Set<GridPos>,
)
    requires
        0 <= done_x <= steps_x,
        0 <= done_y <= steps_y,
        done_x < steps_x || done_y < steps_y,
        sign_x == 1 || sign_x == -1 || (sign_x == 0 && steps_x == 0),
        sign_y == 1 || sign_y == -1 || (sign_y == 0 && steps_y == 0),
        blocked.contains(cell(walk_end(col, done_x, steps_x, sign_x), walk_end(row, done_y, steps_y, sign_y))),
    ensures
        !sight_walk(col, row, done_x, done_y, steps_x, steps_y, sign_x, sign_y, blocked),
    decreases (steps_x - done_x) + (steps_y - done_y),
{
    lemma_step_bounds(done_x, done_y, steps_x, steps_y);
    let compare = (1 + 2 * done_x) * steps_y - (1 + 2 * done_y) * steps_x;
    if compare == 0 {
        if done_x + 1 < steps_x || done_y + 1 < steps_y {
            lemma_sight_walk_blocked_end(col + sign_x, row + sign_y, done_x + 1, done_y + 1, steps_x, steps_y, sign_x, sign_y, blocked);
        }
    } else if compare < 0 {
        if done_x + 1 < steps_x || done_y < steps_y {
            lemma_sight_walk_blocked_end(col + sign_x, row, done_x + 1, done_y, steps_x, steps_y, sign_x, sign_y, blocked);
        }
    } else {
        if done_x < steps_x || done_y + 1 < steps_y {
            lemma_sight_walk_blocked_end(col, row + sign_y, done_x, done_y + 1, steps_x, steps_y, sign_x, sign_y, blocked);
        }
    }
}

/// Line of sight only gets easier with fewer obstacles: what is visible
/// around more blocked cells stays visible around fewer.
pub proof fn law_line_of_sight_monotone(a: GridPos, b: GridPos, fewer: Set<GridPos>, more: Set<GridPos>)
    requires
        fewer.subset_of(more),
        spec_line_of_sight(a, b, more),
    ensures
        spec_line_of_sight(a, b, fewer),
{
    let dx = b.col - a.col;
    let dy = b.row - a.row;
    lemma_sight_walk_monotone(a.col as int, a.row as int, 0, 0, if dx < 0 { -dx } else { dx },
        if dy < 0 { -dy } else { dy }, sgn(dx), sgn(dy), fewer, more);
}

/// On an empty board every cell sees every other.
pub proof fn law_line_of_sight_open(a: GridPos, b: GridPos)
    ensures
        spec_line_of_sight(a, b, Set::empty()),
{
    let dx = b.col - a.col;
    let dy = b.row - a.row;
    lemma_sight_walk_open(a.col as int, a.row as int, 0, 0, if dx < 0 { -dx } else { dx },
        if dy < 0 { -dy } else { dy }, sgn(dx), sgn(dy));
}

/// The coordinate `j` steps from `x` in direction `s` (one of -1 and 1).
pub open spec fn along(x: int, s: int, j: int) -> int {
    if s > 0 { x + j } else { x - j }
}

/// Going from the cell `j` steps along the diagonal from (`col`, `row`) in
/// direction (`sx`, `sy`) to the next one: both cells beside the corner
/// passed and the cell entered are open.
pub open spec fn diagonal_step_clear(blocked: Set<GridPos>, col: int, row: int, sx: int, sy: int, j: int) -> bool {
    &&& !blocked.contains(cell(along(col, sx, j + 1), along(row, sy, j)))
    &&& !blocked.contains(cell(along(col, sx, j), along(row, sy, j + 1)))
    &&& !blocked.contains(cell(along(col, sx, j + 1), along(row, sy, j + 1)))
}

/// A sight walk along an exact diagonal is clear only when every step of it
/// is.
proof fn lemma_diagonal_sight_walk(col: int, row: int, d: int, n: int, sx: int, sy: int, blocked: Set<GridPos>)
    requires
        0 <= d <= n,
        sx == 1 || sx == -1,
        sy == 1 || sy == -1,
        sight_walk(col, row, d, d, n, n, sx, sy, blocked),
    ensures
        forall|j: int| 0 <= j < n - d ==> #[trigger] diagonal_step_clear(blocked, col, row, sx, sy, j),
    decreases n - d,
{
    if d < n {
        assert((1 + 2 * d) * n - (1 + 2 * d) * n == 0);
        lemma_diagonal_sight_walk(col + sx, row + sy, d + 1, n, sx, sy, blocked);
        assert forall|j: int| 0 <= j < n - d implies #[trigger] diagonal_step_clear(blocked, col, row, sx, sy, j) by {
            if j > 0 {
                let i = j - 1;
                assert(diagonal_step_clear(blocked, col + sx, row + sy, sx, sy, i));
                assert(along(col + sx, sx, i + 1) == along(col, sx, j + 1));
                assert(along(row + sy, sy, i) == along(row, sy, j));
                assert(along(col + sx, sx, i) == along(col, sx, j));
                assert(along(row + sy, sy, i + 1) == along(row, sy, j + 1));
            } else {
                assert(along(col, sx, 1) == col + sx);
                assert(along(row, sy, 1) == row + sy);
                assert(along(col, sx, 0) == col);
                assert(along(row, sy, 0) == row);
            }
        }
    }
}

/// Sight never squeezes diagonally past a corner: on an exact diagonal from
/// `a` to `b`, a line of sight means every step along it is clear, both
/// cells beside each corner it crosses and each cell it enters.
pub proof fn law_diagonal_sight_needs_open_corners(a: GridPos, b: GridPos, blocked: Set<GridPos>)
    requires
        b.col != a.col,
        b.col - a.col == b.row - a.row || b.col - a.col == a.row - b.row,
        spec_line_of_sight(a, b, blocked),
    ensures
        forall|j: int| 0 <= j < (if b.col > a.col { b.col - a.col } else { a.col - b.col }) ==> #[trigger] diagonal_step_clear(
            blocked, a.col as int, a.row as int, sgn(b.col - a.col), sgn(b.row - a.row), j),
{
    let dx = b.col - a.col;
    let dy = b.row - a.row;
    let n = if dx < 0 { -dx } else { dx };
    assert(n == (if dy < 0 { -dy } else { dy }));
    lemma_diagonal_sight_walk(a.col as int, a.row as int, 0, n, sgn(dx), sgn(dy), blocked);
}

/// A sight walk that is clear has open cells on both sides of every grid
/// corner the segment passes exactly through: the corner `i` + 1/2 columns
/// and `j` + 1/2 rows along, which the segment crosses when
/// (2i + 1) * ny == (2j + 1) * nx.
proof fn lemma_corner_flanks(
    col: int,
    row: int,
    x: int,
    y: int,
    nx: int,
    ny: int,
    sx: int,
    sy: int,
    blocked: Set<GridPos>,
    i: int,
    j: int,
)
    requires
        0 <= x <= i < nx,
        0 <= y <= j < ny,
        sx == 1 || sx == -1,
        sy == 1 || sy == -1,
        (2 * i + 1) * ny == (2 * j + 1) * nx,
        sight_walk(col, row, x, y, nx, ny, sx, sy, blocked),
    ensures
        !blocked.contains(cell(along(col, sx, i - x + 1), along(row, sy, j - y))),
        !blocked.contains(cell(along(col, sx, i - x), along(row, sy, j - y + 1))),
    decreases (nx - x) + (ny - y),
{
    lemma_step_bounds(x, y, nx, ny);
    let c = (1 + 2 * x) * ny - (1 + 2 * y) * nx;
    assert(x == i && y < j ==> c > 0) by (nonlinear_arith)
        requires
            c == (1 + 2 * x) * ny - (1 + 2 * y) * nx,
            (2 * i + 1) * ny == (2 * j + 1) * nx,
            nx > 0,
    ;
    assert(y == j && x < i ==> c < 0) by (nonlinear_arith)
        requires
            c == (1 + 2 * x) * ny - (1 + 2 * y) * nx,
            (2 * i + 1) * ny == (2 * j + 1) * nx,
            ny > 0,
    ;
    assert(x == i && y == j ==> c == 0) by (nonlinear_arith)
        requires
            c == (1 + 2 * x) * ny - (1 + 2 * y) * nx,
            (2 * i + 1) * ny == (2 * j + 1) * nx,
    ;
    if x == i && y == j {
        assert(along(col, sx, 1) == col + sx);
        assert(along(row, sy, 1) == row + sy);
        assert(along(col, sx, 0) == col);
        assert(along(row, sy, 0) == row);
    } else if c == 0 {
        lemma_corner_flanks(col + sx, row + sy, x + 1, y + 1, nx, ny, sx, sy, blocked, i, j);
        assert(along(col + sx, sx, i - (x + 1) + 1) == along(col, sx, i - x + 1));
        assert(along(col + sx, sx, i - (x + 1)) == along(col, sx, i - x));
        assert(along(row + sy, sy, j - (y + 1)) == along(row, sy, j - y));
        assert(along(row + sy, sy, j - (y + 1) + 1) == along(row, sy, j - y + 1));
    } else if c < 0 {
        lemma_corner_flanks(col + sx, row, x + 1, y, nx, ny, sx, sy, blocked, i, j);
        assert(along(col + sx, sx, i - (x + 1) + 1) == along(col, sx, i - x + 1));
        assert(along(col + sx, sx, i - (x + 1)) == along(col, sx, i - x));
    } else {
        lemma_corner_flanks(col, row + sy, x, y + 1, nx, ny, sx, sy, blocked, i, j);
        assert(along(row + sy, sy, j - (y + 1)) == along(row, sy, j - y));
        assert(along(row + sy, sy, j - (y + 1) + 1) == along(row, sy, j - y + 1));
    }
}

/// Sight never squeezes past a corner: when the segment between the centres
/// of `a` and `b` passes exactly through a grid corner (the one `i` + 1/2
/// columns and `j` + 1/2 rows from `a` towards `b`), `a` sees `b` only if
/// both cells beside that corner are open.
pub proof fn law_sight_needs_open_corners(a: GridPos, b: GridPos, blocked: Set<GridPos>, i: int, j: int)
    requires
        spec_line_of_sight(a, b, blocked),
        0 <= i < (if b.col >= a.col { b.col - a.col } else { a.col - b.col }),
        0 <= j < (if b.row >= a.row { b.row - a.row } else { a.row - b.row }),
        (2 * i + 1) * (if b.row >= a.row { b.row - a.row } else { a.row - b.row })
            == (2 * j + 1) * (if b.col >= a.col { b.col - a.col } else { a.col - b.col }),
    ensures
        !blocked.contains(cell(along(a.col as int, sgn(b.col - a.col), i + 1), along(a.row as int, sgn(b.row - a.row), j))),
        !blocked.contains(cell(along(a.col as int, sgn(b.col - a.col), i), along(a.row as int, sgn(b.row - a.row), j + 1))),
{
    let dx = b.col - a.col;
    let dy = b.row - a.row;
    lemma_corner_flanks(a.col as int, a.row as int, 0, 0, if dx < 0 { -dx } else { dx }, if dy < 0 { -dy } else { dy },
        sgn(dx), sgn(dy), blocked, i, j);
}

/// A sight walk that is clear has every cell the segment passes through
/// open: the cell `i` columns and `j` rows along, whose interior the segment
/// crosses when |2i * ny - 2j * nx| < nx + ny.
proof fn lemma_touched_open(
    col: int,
    row: int,
    x: int,
    y: int,
    nx: int,
    ny: int,
    sx: int,
    sy: int,
    blocked: Set<GridPos>,
    i: int,
    j: int,
)
    requires
        0 <= x <= i <= nx,
        0 <= y <= j <= ny,
        sx == 1 || sx == -1 || (sx == 0 && nx == 0),
        sy == 1 || sy == -1 || (sy == 0 && ny == 0),
        2 * i * ny - 2 * j * nx < nx + ny,
        2 * j * nx - 2 * i * ny < nx + ny,
        !blocked.contains(cell(col, row)),
        sight_walk(col, row, x, y, nx, ny, sx, sy, blocked),
    ensures
        !blocked.contains(cell(along(col, sx, i - x), along(row, sy, j - y))),
    decreases (nx - x) + (ny - y),
{
    if x == i && y == j {
        assert(along(col, sx, 0) == col);
        assert(along(row, sy, 0) == row);
    } else {
        lemma_step_bounds(x, y, nx, ny);
        let c = (1 + 2 * x) * ny - (1 + 2 * y) * nx;
        assert(x == i && y < j ==> c > 0) by (nonlinear_arith)
            requires
                c == (1 + 2 * x) * ny - (1 + 2 * y) * nx,
                2 * j * nx - 2 * i * ny < nx + ny,
                nx >= 0,
                ny >= 0,
        ;
        assert(y == j && x < i ==> c < 0) by (nonlinear_arith)
            requires
                c == (1 + 2 * x) * ny - (1 + 2 * y) * nx,
                2 * i * ny - 2 * j * nx < nx + ny,
                nx >= 0,
                ny >= 0,
        ;
        if c == 0 {
            lemma_touched_open(col + sx, row + sy, x + 1, y + 1, nx, ny, sx, sy, blocked, i, j);
            assert(along(col + sx, sx, i - (x + 1)) == along(col, sx, i - x));
            assert(along(row + sy, sy, j - (y + 1)) == along(row, sy, j - y));
        } else if c < 0 {
            lemma_touched_open(col + sx, row, x + 1, y, nx, ny, sx, sy, blocked, i, j);
            assert(along(col + sx, sx, i - (x + 1)) == along(col, sx, i - x));
        } else {
            lemma_touched_open(col, row + sy, x, y + 1, nx, ny, sx, sy, blocked, i, j);
            assert(along(row + sy, sy, j - (y + 1)) == along(row, sy, j - y));
        }
    }
}

/// Sight passes over open ground only: when `a` sees `b`, every cell whose
/// interior the segment between their centres crosses (the cell `i` columns
/// and `j` rows from `a` towards `b`, with |2i * ny - 2j * nx| < nx + ny for
/// the distances nx, ny) is open.
pub proof fn law_sight_needs_open_cells(a: GridPos, b: GridPos, blocked: Set<GridPos>, i: int, j: int)
    requires
        spec_line_of_sight(a, b, blocked),
        0 <= i <= (if b.col >= a.col { b.col - a.col } else { a.col - b.col }),
        0 <= j <= (if b.row >= a.row { b.row - a.row } else { a.row - b.row }),
        2 * i * (if b.row >= a.row { b.row - a.row } else { a.row - b.row })
            - 2 * j * (if b.col >= a.col { b.col - a.col } else { a.col - b.col })
            < (if b.col >= a.col { b.col - a.col } else { a.col - b.col }) + (if b.row >= a.row { b.row - a.row } else { a.row - b.row }),
        2 * j * (if b.col >= a.col { b.col - a.col } else { a.col - b.col })
            - 2 * i * (if b.row >= a.row { b.row - a.row } else { a.row - b.row })
            < (if b.col >= a.col { b.col - a.col } else { a.col - b.col }) + (if b.row >= a.row { b.row - a.row } else { a.row - b.row }),
    ensures
        !blocked.contains(cell(along(a.col as int, sgn(b.col - a.col), i), along(a.row as int, sgn(b.row - a.row), j))),
{
    let dx = b.col - a.col;
    let dy = b.row - a.row;
    assert(cell(a.col as int, a.row as int) == a);
    lemma_touched_open(a.col as int, a.row as int, 0, 0, if dx < 0 { -dx } else { dx }, if dy < 0 { -dy } else { dy },
        sgn(dx), sgn(dy), blocked, i, j);
}

/// Two diagonal neighbours see each other only when the step between them is
/// allowed: both cells they pass between, and the far cell, are open.
pub proof fn law_diagonal_neighbours_sight(a: GridPos, b: GridPos, blocked: Set<GridPos>)
    requires
        b.col == a.col + 1 || b.col == a.col - 1,
        b.row == a.row + 1 || b.row == a.row - 1,
        spec_line_of_sight(a, b, blocked),
    ensures
        !blocked.contains(GridPos { col: b.col, row: a.row }),
        !blocked.contains(GridPos { col: a.col, row: b.row }),
        !blocked.contains(b),
        !blocked.contains(a),
        spec_in_bounds(a) && spec_in_bounds(b) && spec_in_bounds(GridPos { col: b.col, row: a.row })
            && spec_in_bounds(GridPos { col: a.col, row: b.row }) ==> valid_step(a, b, blocked),
{
    law_diagonal_sight_needs_open_corners(a, b, blocked);
    let sx = sgn(b.col - a.col);
    let sy = sgn(b.row - a.row);
    assert(diagonal_step_clear(blocked, a.col as int, a.row as int, sx, sy, 0));
    assert(cell(along(a.col as int, sx, 1), along(a.row as int, sy, 0)) == GridPos { col: b.col, row: a.row });
    assert(cell(along(a.col as int, sx, 0), along(a.row as int, sy, 1)) == GridPos { col: a.col, row: b.row });
    assert(cell(along(a.col as int, sx, 1), along(a.row as int, sy, 1)) == b);
    let k = if sx == 1 && sy == 1 { 4int } else if sx == 1 { 5int } else if sy == 1 { 6int } else { 7int };
    assert(b == shift(a, dir_dx(k), dir_dy(k)));
    assert(shift(a, dir_dx(k), 0) == GridPos { col: b.col, row: a.row });
    assert(shift(a, 0, dir_dy(k)) == GridPos { col: a.col, row: b.row });
    if spec_in_bounds(a) && spec_in_bounds(b) && spec_in_bounds(GridPos { col: b.col, row: a.row })
        && spec_in_bounds(GridPos { col: a.col, row: b.row }) {
        assert(move_ok(a, k, blocked));
    }
}

/// Nothing is seen from a blocked cell, nor is a blocked cell seen.
pub proof fn law_line_of_sight_blocked_ends(a: GridPos, b: GridPos, blocked: Set<GridPos>)
    requires
        blocked.contains(a) || blocked.contains(b),
    ensures
        !spec_line_of_sight(a, b, blocked),
{
    if !blocked.contains(a) {
        let dx = b.col - a.col;
        let dy = b.row - a.row;
        let sx = if dx < 0 { -dx } else { dx };
        let sy = if dy < 0 { -dy } else { dy };
        if a == b {
        } else {
            assert(sx > 0 || sy > 0);
            assert(cell(walk_end(a.col as int, 0, sx, sgn(dx)), walk_end(a.row as int, 0, sy, sgn(dy))) == b);
            lemma_sight_walk_blocked_end(a.col as int, a.row as int, 0, 0, sx, sy, sgn(dx), sgn(dy), blocked);
        }
    }
}

/// Removing obstacles never cuts a route: a route that exists around more
/// blocked cells exists around fewer.
pub proof fn law_route_exists_monotone(checkpoints: Seq<GridPos>, fewer: Set<GridPos>, more: Set<GridPos>)
    requires
        fewer.subset_of(more),
        route_exists(checkpoints, more),
    ensures
        route_exists(checkpoints, fewer),
{
    let t = route_targets(checkpoints);
    assert forall|i: int| 0 <= i < t.len() - 1 implies reachable(#[trigger] t[i], t[i + 1], fewer) by {
        assert(reachable(t[i], t[i + 1], more));
        let w = choose|w: Seq<GridPos>| #[trigger] is_walk_between(w, t[i], t[i + 1], more);
        assert forall|j: int| 0 <= j < w.len() - 1 implies valid_step(w[j], #[trigger] w[j + 1], fewer) by {
            assert(valid_step(w[j], w[j + 1], more));
            let k = choose|k: int| 0 <= k < 8 && w[j + 1] == shift(w[j], dir_dx(k), dir_dy(k)) && move_ok(w[j], k, more);
            assert(move_ok(w[j], k, fewer));
        }
        assert(is_walk_between(w, t[i], t[i + 1], fewer));
    }
}

/// No walk reaches a cell off the board from one on it.
proof fn lemma_unreachable_off_board(a: GridPos, b: GridPos, blocked: Set<GridPos>)
    requires
        spec_in_bounds(a),
        !spec_in_bounds(b),
    ensures
        !reachable(a, b, blocked),
{
    if reachable(a, b, blocked) {
        let w = choose|w: Seq<GridPos>| is_walk_between(w, a, b, blocked);
        assert(w.len() >= 2);
        assert(valid_step(w[w.len() - 2], w[(w.len() - 2) + 1], blocked));
        lemma_step_target_open(w[w.len() - 2], w[w.len() - 1], blocked);
    }
}

/// The first checkpoint off the board cuts the route off.
proof fn lemma_off_board_cut_off(checkpoints: Seq<GridPos>, blocked: Set<GridPos>, j: int)
    requires
        0 <= j < checkpoints.len(),
        !spec_in_bounds(checkpoints[j]),
        forall|i: int| 0 <= i < j ==> spec_in_bounds(#[trigger] checkpoints[i]),
    ensures
        !route_exists(checkpoints, blocked),
{
    let t = route_targets(checkpoints);
    assert(t[j + 1] == checkpoints[j]);
    if j > 0 {
        assert(t[j] == checkpoints[j - 1]);
    } else {
        assert(t[0] == spec_start_pos());
    }
    lemma_unreachable_off_board(t[j], t[j + 1], blocked);
}

/// Finds the route from the start through every checkpoint in order to the
/// finish: one A* leg per pair of consecutive targets, each string-pulled into
/// straight runs, joined end to end. `None` exactly when some leg is cut off.
#[verifier::spinoff_prover]
#[verifier::rlimit(40)]
pub fn find_complete_path(blocked: &CellSet, checkpoints: &Vec<GridPos>) -> (result: Option<Vec<GridPos>>)
    requires
        blocked.wf(),
    ensures
        result is Some <==> route_exists(checkpoints@, blocked@),
        result matches Some(path) ==> planned_route(path@, checkpoints@, blocked@),
        result matches Some(path) ==> path@ == found_route(checkpoints@, blocked@),
{
    let mut j: usize = 0;
    while j < checkpoints.len()
        invariant
            j <= checkpoints@.len(),
            forall|i: int| 0 <= i < j ==> spec_in_bounds(#[trigger] checkpoints@[i]),
        decreases checkpoints@.len() - j,
    {
        if !checkpoints[j].in_bounds() {
            proof {
                lemma_off_board_cut_off(checkpoints@, blocked@, j as int);
            }
            return None;
        }
        j = j + 1;
    }
    let mut targets: Vec<GridPos> = Vec::new();
    targets.push(start_pos());
    let mut c: usize = 0;
    while c < checkpoints.len()
        invariant
            c <= checkpoints@.len(),
            targets@ == seq![spec_start_pos()] + checkpoints@.subrange(0, c as int),
        decreases checkpoints@.len() - c,
    {
        targets.push(checkpoints[c]);
        proof {
            assert(seq![spec_start_pos()] + checkpoints@.subrange(0, c + 1) =~= (seq![spec_start_pos()] + checkpoints@.subrange(0, c as int)).push(checkpoints@[c as int]));
        }
        c = c + 1;
    }
    targets.push(finish_pos());
    proof {
        assert(checkpoints@.subrange(0, checkpoints@.len() as int) =~= checkpoints@);
        assert(targets@ =~= route_targets(checkpoints@));
        assert forall|i: int| 0 <= i < targets@.len() implies spec_in_bounds(#[trigger] targets@[i]) by {
            if 0 < i < targets@.len() - 1 {
                assert(targets@[i] == checkpoints@[i - 1]);
            }
        }
    }
    let mut complete: Vec<GridPos> = Vec::new();
    let ghost mut marks: Seq<int> = seq![0];
    let ghost mut legs: Seq<Seq<GridPos>> = Seq::empty();
    let mut seg: usize = 0;
    while seg + 1 < targets.len()
        invariant
            blocked.wf(),
            targets@ == route_targets(checkpoints@),
            forall|i: int| 0 <= i < targets@.len() ==> spec_in_bounds(#[trigger] targets@[i]),
            seg + 1 <= targets@.len(),
            forall|i: int| 0 <= i < seg ==> reachable(#[trigger] targets@[i], targets@[i + 1], blocked@),
            marks.len() == seg + 1,
            marks[0] == 0,
            seg == 0 ==> complete@.len() == 0,
            seg > 0 ==> complete@.len() > 0 && marks.last() == complete@.len() - 1,
            seg > 0 ==> forall|i: int| 0 <= i < marks.len() ==> 0 <= #[trigger] marks[i] < complete@.len() && complete@[marks[i]] == targets@[i],
            forall|i: int, j: int| 0 <= i <= j < marks.len() ==> #[trigger] marks[i] <= #[trigger] marks[j],
            legs.len() == seg,
            forall|i: int| 0 <= i < seg ==> is_shortest_walk(#[trigger] legs[i], targets@[i], targets@[i + 1], blocked@),
            forall|i: int| 0 <= i < seg ==> #[trigger] legs[i] == search_route(targets@[i], targets@[i + 1], blocked@),
            complete@ == join_legs(smooth_legs(legs, blocked@)),
        decreases targets@.len() - seg,
    {
        let leg = find_path_between(targets[seg], targets[seg + 1], blocked);
        let leg = match leg {
            Some(p) => p,
            None => {
                proof {
                    assert(!reachable(targets@[seg as int], targets@[seg + 1], blocked@));
                    assert(!route_exists(checkpoints@, blocked@));
                }
                return None;
            },
        };
        proof {
            assert forall|i: int| 0 <= i < leg@.len() implies spec_in_bounds(#[trigger] leg@[i]) by {
                if i > 0 {
                    assert(crate::path::valid_step(leg@[i - 1], leg@[(i - 1) + 1], blocked@));
                    crate::path::lemma_step_target_open(leg@[i - 1], leg@[i], blocked@);
                }
            }
        }
        let smoothed = smooth_path(&leg, blocked);
        let ghost old_complete = complete@;
        if complete.len() == 0 {
            let mut k: usize = 0;
            while k < smoothed.len()
                invariant
                    k <= smoothed@.len(),
                    complete@ == smoothed@.subrange(0, k as int),
                decreases smoothed@.len() - k,
            {
                complete.push(smoothed[k]);
                k = k + 1;
            }
            proof {
                assert(complete@ =~= smoothed@);
                marks = marks.push(complete@.len() - 1);
            }
        } else {
            let mut k: usize = 1;
            while k < smoothed.len()
                invariant
                    1 <= k <= smoothed@.len(),
                    complete@ == old_complete + smoothed@.subrange(1, k as int),
                decreases smoothed@.len() - k,
            {
                complete.push(smoothed[k]);
                proof {
                    assert(old_complete + smoothed@.subrange(1, k + 1) =~= (old_complete + smoothed@.subrange(1, k as int)).push(smoothed@[k as int]));
                }
                k = k + 1;
            }
            proof {
                let new_last = complete@.len() - 1;
                if smoothed@.len() > 1 {
                    assert(complete@[new_last] == smoothed@.last());
                } else {
                    assert(smoothed@.last() == smoothed@[0]);
                    assert(complete@ =~= old_complete);
                }
                assert forall|i: int| 0 <= i < old_complete.len() implies complete@[i] == old_complete[i] by {}
                marks = marks.push(new_last);
            }
        }
        proof {
            let new_legs = legs.push(leg@);
            assert(smooth_legs(new_legs, blocked@) =~= smooth_legs(legs, blocked@).push(smoothed@));
            assert(smooth_legs(new_legs, blocked@).drop_last() =~= smooth_legs(legs, blocked@));
            if seg == 0 {
                assert(complete@ == join_legs(smooth_legs(new_legs, blocked@)));
            } else {
                assert(smoothed@.subrange(1, smoothed@.len() as int) =~= smoothed@.drop_first());
                assert(complete@ == join_legs(smooth_legs(new_legs, blocked@)));
            }
            assert forall|i: int| 0 <= i < seg + 1 implies is_shortest_walk(#[trigger] new_legs[i], targets@[i], targets@[i + 1], blocked@) by {
                if i < seg {
                    assert(new_legs[i] == legs[i]);
                }
            }
            assert forall|i: int| 0 <= i < seg + 1 implies #[trigger] new_legs[i] == search_route(targets@[i], targets@[i + 1], blocked@) by {
                if i < seg {
                    assert(new_legs[i] == legs[i]);
                }
            }
            legs = new_legs;
        }
        seg = seg + 1;
    }
    proof {
        assert(visits_in_order(complete@, route_targets(checkpoints@)));
        assert(shortest_legs(legs, route_targets(checkpoints@), blocked@));
        assert(legs =~= searched_legs(route_targets(checkpoints@), blocked@));
    }
    Some(complete)
}

} // verus!
