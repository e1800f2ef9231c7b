use vstd::prelude::*;

verus! {

/// Every base-layout cell is split into this many cells per side.
pub const PLAY_AREA_SCALE: i32 = 4;
pub const BASE_GRID_COLUMNS: i32 = 29;
pub const BASE_GRID_ROWS: i32 = 17;
pub const GRID_COLUMNS: i32 = BASE_GRID_COLUMNS * PLAY_AREA_SCALE;
pub const GRID_ROWS: i32 = BASE_GRID_ROWS * PLAY_AREA_SCALE;
/// Number of cells on the board (`GRID_COLUMNS * GRID_ROWS`).
pub const CELL_COUNT: usize = 7888;
/// Number of gems offered each build round.
pub const OFFER_COUNT: usize = 5;
/// Gold cost of the first "upgrading chances" purchase.
pub const CHANCE_BASE_COST: u32 = 10;
/// Each later "upgrading chances" purchase costs this much more.
pub const CHANCE_COST_STEP: u32 = 5;

/// Integer movement costs (scaled by 10); 14 approximates 10 * sqrt(2).
pub const ORTHOGONAL_COST: i32 = 10;
pub const DIAGONAL_COST: i32 = 14;

/// A board cell, addressed by column and row.
#[derive(Clone, Copy, PartialEq, Eq, Structural, Hash, Debug)]
pub struct GridPos {
    pub col: i32,
    pub row: i32,
}

pub open spec fn spec_in_bounds(p: GridPos) -> bool {
    0 <= p.col < GRID_COLUMNS && 0 <= p.row < GRID_ROWS
}

/// Dense index of an in-bounds cell: column-major, `col * GRID_ROWS + row`.
pub open spec fn spec_cell_index(p: GridPos) -> int {
    p.col * GRID_ROWS + p.row
}

/// The cell at a dense index.
pub open spec fn spec_cell_at(i: int) -> GridPos {
    GridPos { col: (i / (GRID_ROWS as int)) as i32, row: (i % (GRID_ROWS as int)) as i32 }
}

pub proof fn lemma_cell_index_bounds(p: GridPos)
    requires
        spec_in_bounds(p),
    ensures
        0 <= spec_cell_index(p) < CELL_COUNT,
        spec_cell_at(spec_cell_index(p)) == p,
{
    assert(0 <= p.col * GRID_ROWS <= 115 * GRID_ROWS) by (nonlinear_arith)
        requires
            0 <= p.col <= 115,
    ;
    let i = spec_cell_index(p);
    assert(i / 68 == p.col as int && i % 68 == p.row as int) by (nonlinear_arith)
        requires
            i == p.col * 68 + p.row,
            0 <= p.row < 68,
            0 <= p.col,
    ;
}

pub proof fn lemma_cell_at_bounds(i: int)
    requires
        0 <= i < CELL_COUNT,
    ensures
        spec_in_bounds(spec_cell_at(i)),
        spec_cell_index(spec_cell_at(i)) == i,
{
    assert(0 <= i / 68 < 116 && 0 <= i % 68 < 68 && (i / 68) * 68 + i % 68 == i)
        by (nonlinear_arith)
        requires
            0 <= i < 7888,
    ;
}

/// Two in-bounds cells with the same index are the same cell.
pub proof fn lemma_cell_index_injective(p: GridPos, q: GridPos)
    requires
        spec_in_bounds(p),
        spec_in_bounds(q),
        spec_cell_index(p) == spec_cell_index(q),
    ensures
        p == q,
{
    lemma_cell_index_bounds(p);
    lemma_cell_index_bounds(q);
}

impl GridPos {
    pub fn new(col: i32, row: i32) -> (p: GridPos)
        ensures
            p.col == col,
            p.row == row,
    {
        GridPos { col, row }
    }

    /// The cell shifted by `delta` (columns, rows).
    pub fn offset(self, delta: (i32, i32)) -> (p: GridPos)
        requires
            i32::MIN <= self.col + delta.0 <= i32::MAX,
            i32::MIN <= self.row + delta.1 <= i32::MAX,
        ensures
            p.col == self.col + delta.0,
            p.row == self.row + delta.1,
    {
        GridPos { col: self.col + delta.0, row: self.row + delta.1 }
    }

    /// Whether the cell lies on the board.
    pub fn in_bounds(self) -> (b: bool)
        ensures
            b == spec_in_bounds(self),
    {
        self.col >= 0 && self.col < GRID_COLUMNS && self.row >= 0 && self.row < GRID_ROWS
    }

    /// Dense index of an in-bounds cell.
    pub fn cell_index(self) -> (i: usize)
        requires
            spec_in_bounds(self),
        ensures
            i == spec_cell_index(self),
            i < CELL_COUNT,
    {
        proof {
            lemma_cell_index_bounds(self);
        }
        (self.col * GRID_ROWS + self.row) as usize
    }
}

pub open spec fn spec_start_pos() -> GridPos {
    GridPos { col: 4, row: 32 }
}

pub open spec fn spec_finish_pos() -> GridPos {
    GridPos { col: 108, row: 32 }
}

/// A base-layout coordinate scaled up to board cells.
pub fn scaled_grid_pos(col: i32, row: i32) -> (p: GridPos)
    requires
        i32::MIN <= col * PLAY_AREA_SCALE <= i32::MAX,
        i32::MIN <= row * PLAY_AREA_SCALE <= i32::MAX,
    ensures
        p.col == col * PLAY_AREA_SCALE,
        p.row == row * PLAY_AREA_SCALE,
{
    GridPos::new(col * PLAY_AREA_SCALE, row * PLAY_AREA_SCALE)
}

/// Where enemies enter: base cell (1, 8).
pub fn start_pos() -> (p: GridPos)
    ensures
        p == spec_start_pos(),
        spec_in_bounds(p),
{
    scaled_grid_pos(1, BASE_GRID_ROWS / 2)
}

/// Where enemies leave: base cell (27, 8).
pub fn finish_pos() -> (p: GridPos)
    ensures
        p == spec_finish_pos(),
        spec_in_bounds(p),
{
    scaled_grid_pos(BASE_GRID_COLUMNS - 2, BASE_GRID_ROWS / 2)
}

} // verus!
