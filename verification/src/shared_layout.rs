use vstd::prelude::*;

use crate::board::{CHECKPOINT_COUNT, MAX_CHECKPOINT_DRAWS};
use crate::external::{SeededRng, random_u64, std_rng_draw};
use crate::grid::{BASE_GRID_COLUMNS, BASE_GRID_ROWS, GRID_COLUMNS, GRID_ROWS, PLAY_AREA_SCALE};
use crate::protocol::{GameMode, GridPoint, LayoutView, SharedBoardLayout};

verus! {

/// The base-grid point (`col`, `row`) scaled to the play area.
pub open spec fn spec_scaled_grid_point(col: int, row: int) -> GridPoint {
    GridPoint { col: (col * PLAY_AREA_SCALE) as i32, row: (row * PLAY_AREA_SCALE) as i32 }
}

/// The server's Standard checkpoints: the four spokes, corner by corner.
pub open spec fn spec_server_standard_checkpoints() -> Seq<GridPoint> {
    seq![
        GridPoint { col: 24, row: 52 },
        GridPoint { col: 24, row: 12 },
        GridPoint { col: 88, row: 12 },
        GridPoint { col: 88, row: 52 },
    ]
}

/// A cell a Random checkpoint may take: inside the margins (four base
/// columns and two base rows clear of the edges).
pub open spec fn in_random_area(p: GridPoint) -> bool {
    16 <= p.col < 100 && 8 <= p.row < 60
}

/// At most four distinct cells inside the margins, none of them the start
/// or the finish.
pub open spec fn partial_points_ok(points: Seq<GridPoint>) -> bool {
    &&& points.len() <= CHECKPOINT_COUNT
    &&& forall|i: int, j: int| 0 <= i < j < points.len() ==> points[i] != points[j]
    &&& forall|i: int| 0 <= i < points.len() ==> in_random_area(#[trigger] points[i])
        && (points[i].col, points[i].row) != (4i32, 32i32)
        && (points[i].col, points[i].row) != (108i32, 32i32)
}

/// What every Random draw gives: four distinct cells inside the margins,
/// none of them the start or the finish.
pub open spec fn random_points_ok(points: Seq<GridPoint>) -> bool {
    &&& partial_points_ok(points)
    &&& points.len() == CHECKPOINT_COUNT
}

/// The spare cells a short draw is topped up from: the first four cells of
/// the leftmost column inside the margins.
pub open spec fn spare_point(k: int) -> GridPoint {
    GridPoint { col: 16, row: (8 + k) as i32 }
}

/// The first spare cell not yet among `s`.
pub open spec fn first_spare_point(s: Seq<GridPoint>) -> GridPoint {
    if !s.contains(spare_point(0)) {
        spare_point(0)
    } else if !s.contains(spare_point(1)) {
        spare_point(1)
    } else if !s.contains(spare_point(2)) {
        spare_point(2)
    } else {
        spare_point(3)
    }
}

/// `s` topped up with spare cells until it holds four checkpoints.
pub open spec fn top_up_points(s: Seq<GridPoint>) -> Seq<GridPoint>
    decreases CHECKPOINT_COUNT - s.len(),
{
    if s.len() >= CHECKPOINT_COUNT { s } else { top_up_points(s.push(first_spare_point(s))) }
}

/// Fewer than four checkpoints always leave a spare cell free.
proof fn lemma_spare_point_free(s: Seq<GridPoint>)
    requires
        s.len() < CHECKPOINT_COUNT,
    ensures
        !s.contains(first_spare_point(s)),
        in_random_area(first_spare_point(s)),
{
    if s.contains(spare_point(0)) && s.contains(spare_point(1)) && s.contains(spare_point(2)) && s.contains(spare_point(3)) {
        let i0 = choose|i: int| 0 <= i < s.len() && s[i] == spare_point(0);
        let i1 = choose|i: int| 0 <= i < s.len() && s[i] == spare_point(1);
        let i2 = choose|i: int| 0 <= i < s.len() && s[i] == spare_point(2);
        let i3 = choose|i: int| 0 <= i < s.len() && s[i] == spare_point(3);
        assert(i0 != i1 && i0 != i2 && i0 != i3 && i1 != i2 && i1 != i3 && i2 != i3);
        assert(false);
    }
}

/// Tops `points` up with the first free spare cells until it holds four.
fn top_up_spare_points(points: &mut Vec<GridPoint>)
    requires
        partial_points_ok(old(points)@),
    ensures
        final(points)@ == top_up_points(old(points)@),
        random_points_ok(final(points)@),
{
    while points.len() < CHECKPOINT_COUNT
        invariant
            partial_points_ok(points@),
            top_up_points(points@) == top_up_points(old(points)@),
        decreases CHECKPOINT_COUNT - points@.len(),
    {
        let ghost before = points@;
        proof {
            lemma_spare_point_free(before);
        }
        let mut k: i32 = 0;
        let mut found = false;
        while k < 3 && !found
            invariant
                0 <= k <= 3,
                points@ == before,
                found ==> !before.contains(spare_point(k as int)),
                forall|t: int| 0 <= t < k ==> before.contains(spare_point(t)),
            decreases 3 - k + (if found { 0int } else { 1int }),
        {
            let cell = GridPoint { col: 16, row: 8 + k };
            let mut present = false;
            let mut j: usize = 0;
            while j < points.len()
                invariant
                    j <= points@.len(),
                    points@ == before,
                    cell == spare_point(k as int),
                    present == exists|t: int| 0 <= t < j && before[t] == cell,
                decreases points@.len() - j,
            {
                if points[j] == cell {
                    present = true;
                }
                j = j + 1;
            }
            if present {
                proof {
                    let t = choose|t: int| 0 <= t < j && before[t] == cell;
                    assert(before.contains(spare_point(k as int)));
                }
                k = k + 1;
            } else {
                proof {
                    assert(!before.contains(spare_point(k as int)));
                }
                found = true;
            }
        }
        let spare = GridPoint { col: 16, row: 8 + k };
        proof {
            if k >= 1 { assert(before.contains(spare_point(0))); }
            if k >= 2 { assert(before.contains(spare_point(1))); }
            if k >= 3 { assert(before.contains(spare_point(2))); }
            assert(spare == first_spare_point(before));
        }
        points.push(spare);
        proof {
            assert(top_up_points(before) == top_up_points(before.push(first_spare_point(before))));
            assert forall|i: int, j: int| 0 <= i < j < points@.len() implies points@[i] != points@[j] by {
                if j == before.len() {
                    assert(points@[i] == before[i]);
                    assert(before.contains(before[i]));
                }
            }
            assert forall|i: int| 0 <= i < points@.len() implies in_random_area(#[trigger] points@[i])
                && (points@[i].col, points@[i].row) != (4i32, 32i32)
                && (points@[i].col, points@[i].row) != (108i32, 32i32) by {
                if i < before.len() {
                    assert(points@[i] == before[i]);
                }
            }
        }
    }
}

/// A layout the server may hand out for `mode`: Standard is the fixed
/// layout without a seed, Random carries its seed and the checkpoints drawn
/// from that seed.
pub open spec fn layout_fits(layout: LayoutView, mode: GameMode) -> bool {
    &&& layout.mode == mode
    &&& mode == GameMode::Standard ==> layout.seed is None && layout.checkpoints == spec_server_standard_checkpoints()
    &&& mode == GameMode::Random ==> layout.seed is Some && random_points_ok(layout.checkpoints)
        && layout.checkpoints == server_random_points(layout.seed->0)
}

pub fn scaled_grid_point(col: i32, row: i32) -> (p: GridPoint)
    requires
        -100 <= col <= 100,
        -100 <= row <= 100,
    ensures
        p == spec_scaled_grid_point(col as int, row as int),
{
    GridPoint { col: col * PLAY_AREA_SCALE, row: row * PLAY_AREA_SCALE }
}

/// The start cell, as (column, row).
pub fn start_point() -> (p: (i32, i32))
    ensures
        p == (4i32, 32i32),
{
    (PLAY_AREA_SCALE, (BASE_GRID_ROWS / 2) * PLAY_AREA_SCALE)
}

/// The finish cell, as (column, row).
pub fn finish_point() -> (p: (i32, i32))
    ensures
        p == (108i32, 32i32),
{
    ((BASE_GRID_COLUMNS - 2) * PLAY_AREA_SCALE, (BASE_GRID_ROWS / 2) * PLAY_AREA_SCALE)
}

/// The Standard checkpoints as the server sends them.
pub fn server_standard_checkpoints() -> (points: Vec<GridPoint>)
    ensures
        points@ == spec_server_standard_checkpoints(),
{
    let lower_left = scaled_grid_point(6, 3);
    let lower_right = scaled_grid_point(22, 3);
    let upper_left = scaled_grid_point(6, 13);
    let upper_right = scaled_grid_point(22, 13);
    let points = vec![upper_left, lower_left, lower_right, upper_right];
    assert(points@ =~= spec_server_standard_checkpoints());
    points
}

/// The ranges of the first `attempts` candidate draws: a column inside the
/// margins, then a row inside them, per attempt.
pub open spec fn draw_ranges(attempts: nat) -> Seq<(i32, i32)>
    decreases attempts,
{
    if attempts == 0 {
        Seq::empty()
    } else {
        draw_ranges((attempts - 1) as nat).push((16i32, 100i32)).push((8i32, 60i32))
    }
}

/// Candidate number `k` from a generator seeded with `seed`.
pub open spec fn server_draw(seed: u64, k: nat) -> GridPoint {
    GridPoint {
        col: std_rng_draw(seed, draw_ranges(k), 16, 100),
        row: std_rng_draw(seed, draw_ranges(k).push((16i32, 100i32)), 8, 60),
    }
}

/// The checkpoints kept from candidate `attempts` on, starting from `kept`:
/// a candidate is kept unless it is the start, the finish or already kept;
/// drawing stops at four kept or when `budget` candidates are spent.
pub open spec fn server_kept(seed: u64, kept: Seq<GridPoint>, attempts: nat, budget: nat) -> Seq<GridPoint>
    decreases budget,
{
    if kept.len() >= CHECKPOINT_COUNT || budget == 0 {
        kept
    } else {
        let p = server_draw(seed, attempts);
        let next = if (p.col, p.row) == (4i32, 32i32) || (p.col, p.row) == (108i32, 32i32) || kept.contains(p) {
            kept
        } else {
            kept.push(p)
        };
        server_kept(seed, next, attempts + 1, (budget - 1) as nat)
    }
}

/// The Random checkpoints for `seed`: the candidates kept within
/// `MAX_CHECKPOINT_DRAWS` draws, topped up with spare cells.
pub open spec fn server_random_points(seed: u64) -> Seq<GridPoint> {
    top_up_points(server_kept(seed, Seq::empty(), 0, MAX_CHECKPOINT_DRAWS as nat))
}

/// Random checkpoints drawn from a generator seeded with `seed`: candidate
/// cells (column, then row) are drawn until four distinct ones, other than
/// the start and finish, are found. Should `MAX_CHECKPOINT_DRAWS` candidates
/// not give four, the rest are the first free spare cells.
pub fn server_random_checkpoints(seed: u64) -> (points: Vec<GridPoint>)
    ensures
        points@ == server_random_points(seed),
        random_points_ok(points@),
{
    let mut rng = SeededRng::from_seed(seed);
    let mut points: Vec<GridPoint> = Vec::new();
    let start = start_point();
    let finish = finish_point();
    let col_margin: i32 = 4 * PLAY_AREA_SCALE;
    let row_margin: i32 = 2 * PLAY_AREA_SCALE;
    let mut draws: u32 = 0;
    while points.len() < CHECKPOINT_COUNT && draws < MAX_CHECKPOINT_DRAWS
        invariant
            col_margin == 16,
            row_margin == 8,
            start == (4i32, 32i32),
            finish == (108i32, 32i32),
            draws <= MAX_CHECKPOINT_DRAWS,
            partial_points_ok(points@),
            rng.seed() == seed,
            rng.history() == draw_ranges(draws as nat),
            server_kept(seed, Seq::empty(), 0, MAX_CHECKPOINT_DRAWS as nat)
                == server_kept(seed, points@, draws as nat, (MAX_CHECKPOINT_DRAWS - draws) as nat),
        decreases MAX_CHECKPOINT_DRAWS - draws,
    {
        let col = rng.range(col_margin, GRID_COLUMNS - col_margin);
        let row = rng.range(row_margin, GRID_ROWS - row_margin);
        let point = GridPoint { col, row };
        let ghost before = points@;
        let ghost attempt = draws as nat;
        proof {
            assert(point == server_draw(seed, attempt));
            assert(rng.history() == draw_ranges(attempt + 1));
        }
        draws = draws + 1;
        if (point.col == start.0 && point.row == start.1) || (point.col == finish.0 && point.row == finish.1) {
            continue;
        }
        let mut repeated = false;
        let mut k: usize = 0;
        while k < points.len()
            invariant
                k <= points@.len(),
                repeated == exists|t: int| 0 <= t < k && points@[t] == point,
            decreases points@.len() - k,
        {
            if points[k] == point {
                repeated = true;
            }
            k = k + 1;
        }
        if repeated {
            proof {
                let t = choose|t: int| 0 <= t < k && points@[t] == point;
                assert(points@.contains(point));
            }
            continue;
        }
        proof {
            assert(!points@.contains(point));
        }
        points.push(point);
        proof {
            assert forall|i: int, j: int| 0 <= i < j < points@.len() implies points@[i] != points@[j] by {
                if j == before.len() {
                    assert(points@[i] == before[i]);
                }
            }
            assert forall|i: int| 0 <= i < points@.len() implies in_random_area(#[trigger] points@[i])
                && (points@[i].col, points@[i].row) != (4i32, 32i32)
                && (points@[i].col, points@[i].row) != (108i32, 32i32) by {
                if i < before.len() {
                    assert(points@[i] == before[i]);
                }
            }
        }
    }
    top_up_spare_points(&mut points);
    points
}

/// The layout a multiplayer game starts on: the Standard layout, or Random
/// checkpoints from a fresh random seed.
pub fn shared_layout(mode: GameMode) -> (layout: SharedBoardLayout)
    ensures
        layout_fits(layout@, mode),
        mode == GameMode::Random ==> layout@.checkpoints.len() == CHECKPOINT_COUNT,
{
    match mode {
        GameMode::Standard => SharedBoardLayout { mode, seed: None, checkpoints: server_standard_checkpoints() },
        GameMode::Random => {
            let seed = random_u64();
            SharedBoardLayout { mode, seed: Some(seed), checkpoints: server_random_checkpoints(seed) }
        },
    }
}

} // verus!
