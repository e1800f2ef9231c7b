use vstd::prelude::*;

use crate::cells::CellSet;
use crate::empty_board::lemma_route_exists_on_empty_board;
use crate::external::{duration_as_nanos, duration_since_unix_epoch, system_time_now};
use crate::grid::{
    GRID_COLUMNS, GRID_ROWS, GridPos, PLAY_AREA_SCALE, finish_pos, scaled_grid_pos,
    spec_finish_pos, spec_in_bounds, spec_start_pos, start_pos,
};
use crate::protocol::{GameMode, GridPoint};
use crate::rng::{OfferRng, xorshift};
use crate::route::{find_complete_path, planned_route, route_exists};

verus! {

/// Checkpoints drawn for a Random layout.
pub const CHECKPOINT_COUNT: usize = 4;
/// Candidate cells drawn at most while placing Random checkpoints; a drawn
/// cell is rejected when it repeats a checkpoint or is the start or finish.
pub const MAX_CHECKPOINT_DRAWS: u32 = 1_000_000;
/// Random checkpoints keep this many columns clear of the left and right edges.
pub const CHECKPOINT_COL_MARGIN: i32 = 4 * PLAY_AREA_SCALE;
/// Random checkpoints keep this many rows clear of the top and bottom edges.
pub const CHECKPOINT_ROW_MARGIN: i32 = 2 * PLAY_AREA_SCALE;
/// Seed used when the wall clock reads earlier than the Unix epoch.
pub const FALLBACK_BOARD_SEED: u64 = 0xB0A4D;

/// The fixed Standard layout: four numbered checkpoints on the spokes,
/// visited corner to opposite corner, so the route keeps crossing the middle
/// of the board.
pub open spec fn spec_standard_checkpoints() -> Seq<GridPos> {
    seq![
        GridPos { col: 24, row: 12 },
        GridPos { col: 88, row: 52 },
        GridPos { col: 24, row: 52 },
        GridPos { col: 88, row: 12 },
    ]
}

/// A cell a Random checkpoint may occupy: inside the margins.
pub open spec fn in_checkpoint_area(p: GridPos) -> bool {
    16 <= p.col < 100 && 8 <= p.row < 60
}

/// The spare cells a short draw is topped up from: the first four cells of
/// the leftmost column inside the margins.
pub open spec fn spare_cell(k: int) -> GridPos {
    GridPos { col: 16, row: (8 + k) as i32 }
}

/// The first spare cell not yet among `s`.
pub open spec fn first_spare(s: Seq<GridPos>) -> GridPos {
    if !s.contains(spare_cell(0)) {
        spare_cell(0)
    } else if !s.contains(spare_cell(1)) {
        spare_cell(1)
    } else if !s.contains(spare_cell(2)) {
        spare_cell(2)
    } else {
        spare_cell(3)
    }
}

/// `s` topped up with spare cells until it holds four checkpoints.
pub open spec fn top_up(s: Seq<GridPos>) -> Seq<GridPos>
    decreases CHECKPOINT_COUNT - s.len(),
{
    if s.len() >= CHECKPOINT_COUNT { s } else { top_up(s.push(first_spare(s))) }
}

/// Fewer than four checkpoints always leave a spare cell free.
proof fn lemma_spare_free(s: Seq<GridPos>)
    requires
        s.len() < CHECKPOINT_COUNT,
    ensures
        !s.contains(first_spare(s)),
        in_checkpoint_area(first_spare(s)),
{
    if s.contains(spare_cell(0)) && s.contains(spare_cell(1)) && s.contains(spare_cell(2)) && s.contains(spare_cell(3)) {
        let i0 = choose|i: int| 0 <= i < s.len() && s[i] == spare_cell(0);
        let i1 = choose|i: int| 0 <= i < s.len() && s[i] == spare_cell(1);
        let i2 = choose|i: int| 0 <= i < s.len() && s[i] == spare_cell(2);
        let i3 = choose|i: int| 0 <= i < s.len() && s[i] == spare_cell(3);
        assert(i0 != i1 && i0 != i2 && i0 != i3 && i1 != i2 && i1 != i3 && i2 != i3);
        assert(false);
    }
}

/// The rejection-sampling draw of Random checkpoints from a generator state:
/// each attempt advances the generator twice (column, then row).
pub open spec fn draw_checkpoints(state: u64, acc: Seq<GridPos>, budget: nat) -> (Seq<GridPos>, u64)
    decreases budget,
{
    if acc.len() >= CHECKPOINT_COUNT || budget == 0 {
        (acc, state)
    } else {
        let s1 = xorshift(state);
        let s2 = xorshift(s1);
        let pos = GridPos {
            col: (16 + ((s1 as usize) % 84) as int) as i32,
            row: (8 + ((s2 as usize) % 52) as int) as i32,
        };
        if pos == spec_start_pos() || pos == spec_finish_pos() || acc.contains(pos) {
            draw_checkpoints(s2, acc, (budget - 1) as nat)
        } else {
            draw_checkpoints(s2, acc.push(pos), (budget - 1) as nat)
        }
    }
}

/// The Random checkpoints drawn from `seed`.
pub open spec fn random_layout(seed: u64) -> Seq<GridPos> {
    top_up(draw_checkpoints(OfferRng::spec_new(seed).state, Seq::empty(), MAX_CHECKPOINT_DRAWS as nat).0)
}

pub open spec fn distinct(s: Seq<GridPos>) -> bool {
    forall|i: int, j: int| 0 <= i < j < s.len() ==> s[i] != s[j]
}

/// The Standard checkpoints.
pub fn standard_checkpoints() -> (checkpoints: Vec<GridPos>)
    ensures
        checkpoints@ == spec_standard_checkpoints(),
{
    let mut v: Vec<GridPos> = Vec::new();
    v.push(scaled_grid_pos(6, 3));
    v.push(scaled_grid_pos(22, 13));
    v.push(scaled_grid_pos(6, 13));
    v.push(scaled_grid_pos(22, 3));
    assert(v@ =~= spec_standard_checkpoints());
    v
}

/// Draws the Random checkpoints: distinct cells inside the margins, never the
/// start or finish, drawn column then row from `rng` until four are placed.
/// Should `MAX_CHECKPOINT_DRAWS` candidates not give four, the rest are the
/// first free spare cells.
pub fn random_checkpoints(rng: &mut OfferRng) -> (checkpoints: Vec<GridPos>)
    ensures
        checkpoints@ == top_up(draw_checkpoints(old(rng).state, Seq::empty(), MAX_CHECKPOINT_DRAWS as nat).0),
        final(rng).state == draw_checkpoints(old(rng).state, Seq::empty(), MAX_CHECKPOINT_DRAWS as nat).1,
        checkpoints@.len() == CHECKPOINT_COUNT,
        distinct(checkpoints@),
        forall|i: int| 0 <= i < checkpoints@.len() ==> in_checkpoint_area(#[trigger] checkpoints@[i])
            && checkpoints@[i] != spec_start_pos() && checkpoints@[i] != spec_finish_pos(),
{
    let mut checkpoints: Vec<GridPos> = Vec::new();
    let start = start_pos();
    let finish = finish_pos();
    let col_margin = CHECKPOINT_COL_MARGIN;
    let row_margin = CHECKPOINT_ROW_MARGIN;
    let mut draws: u32 = 0;
    while checkpoints.len() < CHECKPOINT_COUNT && draws < MAX_CHECKPOINT_DRAWS
        invariant
            draws <= MAX_CHECKPOINT_DRAWS,
            col_margin == 16,
            row_margin == 8,
            start == spec_start_pos(),
            finish == spec_finish_pos(),
            draw_checkpoints(old(rng).state, Seq::empty(), MAX_CHECKPOINT_DRAWS as nat)
                == draw_checkpoints(rng.state, checkpoints@, (MAX_CHECKPOINT_DRAWS - draws) as nat),
            checkpoints@.len() <= CHECKPOINT_COUNT,
            distinct(checkpoints@),
            forall|i: int| 0 <= i < checkpoints@.len() ==> in_checkpoint_area(#[trigger] checkpoints@[i])
                && checkpoints@[i] != spec_start_pos() && checkpoints@[i] != spec_finish_pos(),
        decreases MAX_CHECKPOINT_DRAWS - draws,
    {
        let col = col_margin + rng.next_index((GRID_COLUMNS - col_margin * 2) as usize) as i32;
        let row = row_margin + rng.next_index((GRID_ROWS - row_margin * 2) as usize) as i32;
        let pos = GridPos::new(col, row);
        draws = draws + 1;
        let mut repeated = false;
        let mut k: usize = 0;
        while k < checkpoints.len()
            invariant
                k <= checkpoints@.len(),
                repeated == exists|t: int| 0 <= t < k && checkpoints@[t] == pos,
            decreases checkpoints@.len() - k,
        {
            if checkpoints[k] == pos {
                repeated = true;
            }
            k = k + 1;
        }
        proof {
            if repeated {
                let t = choose|t: int| 0 <= t < k && checkpoints@[t] == pos;
                assert(checkpoints@.contains(pos));
            } else {
                assert(!checkpoints@.contains(pos));
            }
        }
        if pos == start || pos == finish || repeated {
            continue;
        }
        checkpoints.push(pos);
    }
    top_up_checkpoints(&mut checkpoints);
    checkpoints
}

/// Tops `checkpoints` up with the first free spare cells until it holds four.
fn top_up_checkpoints(checkpoints: &mut Vec<GridPos>)
    requires
        old(checkpoints)@.len() <= CHECKPOINT_COUNT,
        distinct(old(checkpoints)@),
        forall|i: int| 0 <= i < old(checkpoints)@.len() ==> in_checkpoint_area(#[trigger] old(checkpoints)@[i])
            && old(checkpoints)@[i] != spec_start_pos() && old(checkpoints)@[i] != spec_finish_pos(),
    ensures
        final(checkpoints)@ == top_up(old(checkpoints)@),
        final(checkpoints)@.len() == CHECKPOINT_COUNT,
        distinct(final(checkpoints)@),
        forall|i: int| 0 <= i < final(checkpoints)@.len() ==> in_checkpoint_area(#[trigger] final(checkpoints)@[i])
            && final(checkpoints)@[i] != spec_start_pos() && final(checkpoints)@[i] != spec_finish_pos(),
{
    while checkpoints.len() < CHECKPOINT_COUNT
        invariant
            checkpoints@.len() <= CHECKPOINT_COUNT,
            top_up(checkpoints@) == top_up(old(checkpoints)@),
            distinct(checkpoints@),
            forall|i: int| 0 <= i < checkpoints@.len() ==> in_checkpoint_area(#[trigger] checkpoints@[i])
                && checkpoints@[i] != spec_start_pos() && checkpoints@[i] != spec_finish_pos(),
        decreases CHECKPOINT_COUNT - checkpoints@.len(),
    {
        let ghost before = checkpoints@;
        proof {
            lemma_spare_free(before);
        }
        let mut k: i32 = 0;
        let mut found = false;
        while k < 3 && !found
            invariant
                0 <= k <= 3,
                checkpoints@ == before,
                found ==> !before.contains(spare_cell(k as int)),
                forall|t: int| 0 <= t < k ==> before.contains(spare_cell(t)),
            decreases 3 - k + (if found { 0int } else { 1int }),
        {
            let cell = GridPos::new(16, 8 + k);
            let mut present = false;
            let mut j: usize = 0;
            while j < checkpoints.len()
                invariant
                    j <= checkpoints@.len(),
                    checkpoints@ == before,
                    cell == spare_cell(k as int),
                    present == exists|t: int| 0 <= t < j && before[t] == cell,
                decreases checkpoints@.len() - j,
            {
                if checkpoints[j] == cell {
                    present = true;
                }
                j = j + 1;
            }
            if present {
                proof {
                    let t = choose|t: int| 0 <= t < j && before[t] == cell;
                    assert(before.contains(spare_cell(k as int)));
                }
                k = k + 1;
            } else {
                proof {
                    assert(!before.contains(spare_cell(k as int)));
                }
                found = true;
            }
        }
        let spare = GridPos::new(16, 8 + k);
        proof {
            if found {
                if k >= 1 { assert(before.contains(spare_cell(0))); }
                if k >= 2 { assert(before.contains(spare_cell(1))); }
                if k >= 3 { assert(before.contains(spare_cell(2))); }
            } else {
                assert(before.contains(spare_cell(0)));
                assert(before.contains(spare_cell(1)));
                assert(before.contains(spare_cell(2)));
            }
            assert(spare == first_spare(before));
        }
        checkpoints.push(spare);
        proof {
            assert(top_up(before) == top_up(before.push(first_spare(before))));
            assert forall|i: int, j: int| 0 <= i < j < checkpoints@.len() implies checkpoints@[i] != checkpoints@[j] by {
                if j == before.len() {
                    assert(checkpoints@[i] == before[i]);
                    assert(before.contains(before[i]));
                }
            }
            assert forall|i: int| 0 <= i < checkpoints@.len() implies in_checkpoint_area(#[trigger] checkpoints@[i])
                && checkpoints@[i] != spec_start_pos() && checkpoints@[i] != spec_finish_pos() by {
                if i < before.len() {
                    assert(checkpoints@[i] == before[i]);
                }
            }
        }
    }
}

/// The board a game is played on: placed towers (by entity id), walls left
/// behind by unkept starters and sacrifices, the checkpoints, and the
/// current enemy route.
pub struct Board {
    pub towers: Vec<(GridPos, u64)>,
    pub walls: CellSet,
    pub path: Vec<GridPos>,
    pub checkpoints: Vec<GridPos>,
}

/// The cells holding a tower.
pub open spec fn tower_cells(towers: Seq<(GridPos, u64)>) -> Set<GridPos> {
    Set::new(|p: GridPos| exists|i: int| 0 <= i < towers.len() && (#[trigger] towers[i]).0 == p)
}

impl Board {
    /// Walls are a well-formed set, and checkpoints and towers lie on the board.
    pub open spec fn wf(&self) -> bool {
        &&& self.walls.wf()
        &&& forall|i: int| 0 <= i < self.checkpoints@.len() ==> spec_in_bounds(#[trigger] self.checkpoints@[i])
        &&& forall|i: int| 0 <= i < self.towers@.len() ==> spec_in_bounds((#[trigger] self.towers@[i]).0)
    }

    /// Cells enemies cannot enter: walls and towers.
    pub open spec fn spec_occupied(&self) -> Set<GridPos> {
        self.walls@.union(tower_cells(self.towers@))
    }

    /// Cells nothing may be built on: start, finish and the checkpoints.
    pub open spec fn spec_protected(&self) -> Set<GridPos> {
        set![spec_start_pos(), spec_finish_pos()].union(self.checkpoints@.to_set())
    }

    /// An empty board for `checkpoints`, with the route across it.
    pub fn with_checkpoints(checkpoints: Vec<GridPos>) -> (board: Board)
        requires
            forall|i: int| 0 <= i < checkpoints@.len() ==> spec_in_bounds(#[trigger] checkpoints@[i]),
        ensures
            board.wf(),
            board.towers@.len() == 0,
            board.walls@ == Set::<GridPos>::empty(),
            board.checkpoints@ == checkpoints@,
            planned_route(board.path@, checkpoints@, Set::empty()),
    {
        let empty = CellSet::new();
        proof {
            lemma_route_exists_on_empty_board(checkpoints@);
        }
        let path = match find_complete_path(&empty, &checkpoints) {
            Some(p) => p,
            None => {
                proof {
                    assert(false);
                }
                Vec::new()
            },
        };
        Board { towers: Vec::new(), walls: empty, path, checkpoints }
    }

    /// A fresh board for `mode`, with Random checkpoints drawn from `seed`.
    pub fn for_mode_seeded(mode: GameMode, seed: u64) -> (board: Board)
        ensures
            board.wf(),
            board.towers@.len() == 0,
            board.walls@ == Set::<GridPos>::empty(),
            mode == GameMode::Standard ==> board.checkpoints@ == spec_standard_checkpoints(),
            mode == GameMode::Random ==> board.checkpoints@ == random_layout(seed),
            mode == GameMode::Random ==> board.checkpoints@.len() == CHECKPOINT_COUNT && distinct(board.checkpoints@),
            mode == GameMode::Random ==> forall|i: int| 0 <= i < board.checkpoints@.len()
                ==> in_checkpoint_area(#[trigger] board.checkpoints@[i]) && board.checkpoints@[i] != spec_start_pos()
                && board.checkpoints@[i] != spec_finish_pos(),
            planned_route(board.path@, board.checkpoints@, Set::empty()),
    {
        let mut rng = OfferRng::new(seed);
        let checkpoints = match mode {
            GameMode::Standard => standard_checkpoints(),
            GameMode::Random => random_checkpoints(&mut rng),
        };
        proof {
            if mode == GameMode::Random {
                assert forall|i: int| 0 <= i < checkpoints@.len() implies spec_in_bounds(#[trigger] checkpoints@[i]) by {
                    assert(in_checkpoint_area(checkpoints@[i]));
                }
            }
        }
        Board::with_checkpoints(checkpoints)
    }

    /// A fresh board for `mode`, seeded from the wall clock (nanoseconds since
    /// the Unix epoch, or `FALLBACK_BOARD_SEED` when the clock reads earlier).
    pub fn for_mode(mode: GameMode) -> (board: Board)
        ensures
            board.wf(),
            board.towers@.len() == 0,
            board.walls@ == Set::<GridPos>::empty(),
            mode == GameMode::Standard ==> board.checkpoints@ == spec_standard_checkpoints(),
            mode == GameMode::Random ==> exists|seed: u64| board.checkpoints@ == #[trigger] random_layout(seed),
            mode == GameMode::Random ==> board.checkpoints@.len() == CHECKPOINT_COUNT && distinct(board.checkpoints@),
            mode == GameMode::Random ==> forall|i: int| 0 <= i < board.checkpoints@.len()
                ==> in_checkpoint_area(#[trigger] board.checkpoints@[i]) && board.checkpoints@[i] != spec_start_pos()
                && board.checkpoints@[i] != spec_finish_pos(),
            planned_route(board.path@, board.checkpoints@, Set::empty()),
    {
        let now = system_time_now();
        let seed = match duration_since_unix_epoch(&now) {
            Some(elapsed) => duration_as_nanos(&elapsed) as u64,
            None => FALLBACK_BOARD_SEED,
        };
        Board::for_mode_seeded(mode, seed)
    }

    /// A Standard board.
    pub fn new() -> (board: Board)
        ensures
            board.wf(),
            board.towers@.len() == 0,
            board.walls@ == Set::<GridPos>::empty(),
            board.checkpoints@ == spec_standard_checkpoints(),
            planned_route(board.path@, board.checkpoints@, Set::empty()),
    {
        Board::for_mode(GameMode::Standard)
    }

    /// Replaces the board with a fresh one for `mode`.
    pub fn reset_for_mode(&mut self, mode: GameMode)
        ensures
            final(self).wf(),
            final(self).towers@.len() == 0,
            final(self).walls@ == Set::<GridPos>::empty(),
            mode == GameMode::Standard ==> final(self).checkpoints@ == spec_standard_checkpoints(),
            mode == GameMode::Random ==> exists|seed: u64| final(self).checkpoints@ == #[trigger] random_layout(seed),
            mode == GameMode::Random ==> final(self).checkpoints@.len() == CHECKPOINT_COUNT && distinct(final(self).checkpoints@),
            planned_route(final(self).path@, final(self).checkpoints@, Set::empty()),
    {
        *self = Board::for_mode(mode);
    }

    /// Replaces the board with an empty one on the server's checkpoints.
    pub fn reset_for_shared_layout(&mut self, checkpoints: &Vec<GridPoint>)
        requires
            forall|i: int| 0 <= i < checkpoints@.len() ==> spec_in_bounds(
                GridPos { col: (#[trigger] checkpoints@[i]).col, row: checkpoints@[i].row }),
        ensures
            final(self).wf(),
            final(self).towers@.len() == 0,
            final(self).walls@ == Set::<GridPos>::empty(),
            final(self).checkpoints@.len() == checkpoints@.len(),
            forall|i: int| 0 <= i < checkpoints@.len() ==> (#[trigger] final(self).checkpoints@[i]).col == checkpoints@[i].col
                && final(self).checkpoints@[i].row == checkpoints@[i].row,
            planned_route(final(self).path@, final(self).checkpoints@, Set::empty()),
    {
        let mut cells: Vec<GridPos> = Vec::new();
        let mut i: usize = 0;
        while i < checkpoints.len()
            invariant
                i <= checkpoints@.len(),
                cells@.len() == i,
                forall|t: int| 0 <= t < i ==> (#[trigger] cells@[t]).col == checkpoints@[t].col && cells@[t].row == checkpoints@[t].row,
            decreases checkpoints@.len() - i,
        {
            let point = checkpoints[i];
            cells.push(GridPos::new(point.col, point.row));
            i = i + 1;
        }
        proof {
            assert forall|t: int| 0 <= t < cells@.len() implies spec_in_bounds(#[trigger] cells@[t]) by {
                assert(cells@[t] == GridPos { col: checkpoints@[t].col, row: checkpoints@[t].row });
            }
        }
        *self = Board::with_checkpoints(cells);
    }

    /// Walls and tower cells together.
    pub fn occupied_cells(&self) -> (occupied: CellSet)
        requires
            self.wf(),
        ensures
            occupied.wf(),
            occupied@ == self.spec_occupied(),
    {
        let mut occupied = self.walls.duplicate();
        let mut i: usize = 0;
        while i < self.towers.len()
            invariant
                self.wf(),
                i <= self.towers@.len(),
                occupied.wf(),
                occupied@ == self.walls@.union(tower_cells(self.towers@.subrange(0, i as int))),
            decreases self.towers@.len() - i,
        {
            let ghost before = occupied@;
            occupied.insert(self.towers[i].0);
            proof {
                let s1 = self.towers@.subrange(0, i as int);
                let s2 = self.towers@.subrange(0, i + 1);
                assert forall|p: GridPos| tower_cells(s2).contains(p) == (tower_cells(s1).contains(p) || p == self.towers@[i as int].0) by {
                    if tower_cells(s2).contains(p) {
                        let j = choose|j: int| 0 <= j < s2.len() && (#[trigger] s2[j]).0 == p;
                        if j < i {
                            assert(s1[j] == s2[j]);
                        }
                    }
                    if tower_cells(s1).contains(p) {
                        let j = choose|j: int| 0 <= j < s1.len() && (#[trigger] s1[j]).0 == p;
                        assert(s2[j] == s1[j]);
                    }
                    if p == self.towers@[i as int].0 {
                        assert(s2[i as int] == self.towers@[i as int]);
                    }
                }
                assert(occupied@ =~= self.walls@.union(tower_cells(s2)));
            }
            i = i + 1;
        }
        proof {
            assert(self.towers@.subrange(0, self.towers@.len() as int) =~= self.towers@);
        }
        occupied
    }

    /// Start, finish and the checkpoints.
    pub fn protected_cells(&self) -> (protected: CellSet)
        requires
            self.wf(),
        ensures
            protected.wf(),
            protected@ == self.spec_protected(),
    {
        let mut protected = CellSet::new();
        protected.insert(start_pos());
        protected.insert(finish_pos());
        let mut i: usize = 0;
        while i < self.checkpoints.len()
            invariant
                self.wf(),
                i <= self.checkpoints@.len(),
                protected.wf(),
                protected@ == set![spec_start_pos(), spec_finish_pos()].union(self.checkpoints@.subrange(0, i as int).to_set()),
            decreases self.checkpoints@.len() - i,
        {
            protected.insert(self.checkpoints[i]);
            proof {
                let s1 = self.checkpoints@.subrange(0, i as int);
                let s2 = self.checkpoints@.subrange(0, i + 1);
                assert(s2 =~= s1.push(self.checkpoints@[i as int]));
                assert(s2.to_set() =~= s1.to_set().insert(self.checkpoints@[i as int])) by {
                    assert forall|p: GridPos| s2.to_set().contains(p) == s1.to_set().insert(self.checkpoints@[i as int]).contains(p) by {
                        if s2.contains(p) {
                            let j = choose|j: int| 0 <= j < s2.len() && s2[j] == p;
                            if j < i {
                                assert(s1[j] == p);
                            }
                        }
                        if s1.contains(p) {
                            let j = choose|j: int| 0 <= j < s1.len() && s1[j] == p;
                            assert(s2[j] == p);
                        }
                        if p == self.checkpoints@[i as int] {
                            assert(s2[i as int] == p);
                        }
                    }
                }
                assert(protected@ =~= set![spec_start_pos(), spec_finish_pos()].union(s2.to_set()));
            }
            i = i + 1;
        }
        proof {
            assert(self.checkpoints@.subrange(0, self.checkpoints@.len() as int) =~= self.checkpoints@);
        }
        protected
    }

    /// The route through this board's checkpoints with `blocked` cells
    /// closed, when one exists.
    pub fn path_with_blocked(&self, blocked: &CellSet) -> (path: Option<Vec<GridPos>>)
        requires
            self.wf(),
            blocked.wf(),
        ensures
            path is Some <==> route_exists(self.checkpoints@, blocked@),
            path matches Some(p) ==> planned_route(p@, self.checkpoints@, blocked@),
    {
        find_complete_path(blocked, &self.checkpoints)
    }

    /// Recomputes the route around the walls and towers. Returns false, and
    /// keeps the old route, when the checkpoints are cut off.
    pub fn recalculate_path(&mut self) -> (found: bool)
        requires
            old(self).wf(),
        ensures
            final(self).wf(),
            found == route_exists(old(self).checkpoints@, old(self).spec_occupied()),
            final(self).towers == old(self).towers,
            final(self).walls@ == old(self).walls@,
            final(self).checkpoints == old(self).checkpoints,
            found ==> planned_route(final(self).path@, final(self).checkpoints@, final(self).spec_occupied()),
            !found ==> final(self).path == old(self).path,
    {
        let occupied = self.occupied_cells();
        match find_complete_path(&occupied, &self.checkpoints) {
            Some(path) => {
                self.path = path;
                true
            },
            None => false,
        }
    }
}

} // verus!
