use vstd::prelude::*;

use crate::board::{Board, tower_cells};
use crate::cells::CellSet;
use crate::game::{
    AppScreen, Game, GameView, Phase, WAVE_COUNTDOWN_MILLI, count_placed, empty_slots, lemma_count_placed_bound, msg_kept, without_aura,
};
use crate::gem::{GemEffect, GemGrade, GemKind, spec_gem_name, spec_grade_name, spec_next_grade};
use crate::recipe::{
    SpecialRecipe, is_table_recipe, join_piece_names, law_recipe_sources_distinct, recipe_table,
    special_recipe_for_source, spec_recipe_result,
};
use crate::special::{
    STAR_YELLOW_SAPPHIRE_DAMAGE_BOOST_MILLI, SpecialGem, spec_special_effect, spec_special_name, spec_special_upgrade, spec_special_upgrade_cost,
};
use crate::grid::{GridPos, OFFER_COUNT, spec_finish_pos, spec_in_bounds, spec_start_pos};
use crate::path::is_open;
use crate::route::{law_planned_route_clear, planned_route, route_exists, route_targets, segments_clear};
use crate::text::{push_decimal, push_str};
use crate::tower::{
    Tower, spec_become_special, spec_display_name, spec_tower_effect, spec_tower_for_grade, tower_for_grade,
};

verus! {

/// A tower on the field, with the id the renderer knows it by. `starter`
/// marks one of this round's placed starters not yet kept.
#[derive(Clone, Copy, PartialEq, Eq, Structural, Debug)]
pub struct FieldTower {
    pub id: u64,
    pub pos: GridPos,
    pub tower: Tower,
    pub starter: bool,
}

/// The board together with the towers standing on it. The board maps cells
/// to tower ids; `towers` holds each tower's state.
pub struct Field {
    pub board: Board,
    pub towers: Vec<FieldTower>,
    pub next_id: u64,
}

/// The content of a field.
pub struct FieldView {
    pub board_towers: Seq<(GridPos, u64)>,
    pub walls: Set<GridPos>,
    pub path: Seq<GridPos>,
    pub checkpoints: Seq<GridPos>,
    pub towers: Seq<FieldTower>,
    pub next_id: u64,
}

impl View for Field {
    type V = FieldView;

    open spec fn view(&self) -> FieldView {
        FieldView {
            board_towers: self.board.towers@,
            walls: self.board.walls@,
            path: self.board.path@,
            checkpoints: self.board.checkpoints@,
            towers: self.towers@,
            next_id: self.next_id,
        }
    }
}

/// Cells enemies cannot enter.
pub open spec fn occupied(f: FieldView) -> Set<GridPos> {
    f.walls.union(tower_cells(f.board_towers))
}

/// Cells nothing may be built on.
pub open spec fn protected(f: FieldView) -> Set<GridPos> {
    set![spec_start_pos(), spec_finish_pos()].union(f.checkpoints.to_set())
}

/// The index of the tower with id `id`.
pub open spec fn find_tower(ts: Seq<FieldTower>, id: u64) -> Option<int> {
    if exists|i: int| 0 <= i < ts.len() && (#[trigger] ts[i]).id == id {
        Some(choose|i: int| 0 <= i < ts.len() && (#[trigger] ts[i]).id == id)
    } else {
        None
    }
}

/// The board entry holding tower `id`.
pub open spec fn find_board_id(bt: Seq<(GridPos, u64)>, id: u64) -> Option<int> {
    if exists|i: int| 0 <= i < bt.len() && (#[trigger] bt[i]).1 == id {
        Some(choose|i: int| 0 <= i < bt.len() && (#[trigger] bt[i]).1 == id)
    } else {
        None
    }
}

/// The board entry for cell `pos`.
pub open spec fn find_board_pos(bt: Seq<(GridPos, u64)>, pos: GridPos) -> Option<int> {
    if exists|i: int| 0 <= i < bt.len() && (#[trigger] bt[i]).0 == pos {
        Some(choose|i: int| 0 <= i < bt.len() && (#[trigger] bt[i]).0 == pos)
    } else {
        None
    }
}

/// The board with cell `pos` mapped to `id` (replacing an entry for `pos`).
pub open spec fn board_insert(bt: Seq<(GridPos, u64)>, pos: GridPos, id: u64) -> Seq<(GridPos, u64)> {
    match find_board_pos(bt, pos) {
        Some(i) => bt.update(i, (pos, id)),
        None => bt.push((pos, id)),
    }
}

pub open spec fn without_tower(ts: Seq<FieldTower>, id: u64) -> Seq<FieldTower> {
    match find_tower(ts, id) {
        Some(i) => ts.remove(i),
        None => ts,
    }
}

/// The field after tower `id` is sacrificed: its cell, if on the board,
/// becomes a wall.
pub open spec fn sacrificed(f: FieldView, id: u64) -> FieldView {
    match find_board_id(f.board_towers, id) {
        Some(bi) => FieldView {
            board_towers: f.board_towers.remove(bi),
            walls: f.walls.insert(f.board_towers[bi].0),
            towers: without_tower(f.towers, id),
            ..f
        },
        None => FieldView { towers: without_tower(f.towers, id), ..f },
    }
}

/// Board cells and ids are distinct, field tower ids are distinct, and every
/// id is below `next_id`.
pub open spec fn field_wf(f: &Field) -> bool {
    let v = f@;
    &&& f.board.wf()
    &&& forall|i: int, j: int| 0 <= i < v.board_towers.len() && 0 <= j < v.board_towers.len() && i != j
        ==> (#[trigger] v.board_towers[i]).0 != (#[trigger] v.board_towers[j]).0
            && v.board_towers[i].1 != v.board_towers[j].1
    &&& forall|i: int, j: int| 0 <= i < v.towers.len() && 0 <= j < v.towers.len() && i != j
        ==> (#[trigger] v.towers[i]).id != (#[trigger] v.towers[j]).id
    &&& forall|i: int| 0 <= i < v.board_towers.len() ==> (#[trigger] v.board_towers[i]).1 < v.next_id
    &&& forall|i: int| 0 <= i < v.towers.len() ==> (#[trigger] v.towers[i]).id < v.next_id
}

pub open spec fn msg_protected_cell() -> Seq<char> {
    "Start, checkpoints, and finish stay open; build around them to shape the path."@
}

pub open spec fn msg_select_first() -> Seq<char> {
    "Select a chipped gem before placing a tower."@
}

pub open spec fn msg_already_placed() -> Seq<char> {
    "That chipped gem has already been placed."@
}

pub open spec fn msg_blocks_route() -> Seq<char> {
    "That placement would block the checkpoint route."@
}

pub open spec fn msg_all_placed() -> Seq<char> {
    "All five placed. Click one to select, then Confirm (Ctrl+click to keep instantly)."@
}

pub open spec fn msg_placed_count(n: nat) -> Seq<char> {
    "Placed starter "@ + crate::text::decimal(n) + " of 5. Select and place the next chipped gem."@
}

/// The gem of the selected offer slot, if it still holds one.
pub open spec fn selected_gem(g: GameView) -> Option<GemKind> {
    match g.selected_offer {
        Some(i) => g.offers[i as int],
        None => None,
    }
}

/// The outcome of placing the selected starter on `pos`; `new_path` is the
/// route the board takes when the placement stands.
pub open spec fn placement(g: GameView, f: FieldView, pos: GridPos, new_path: Seq<GridPos>) -> (GameView, FieldView, Option<u64>) {
    if protected(f).contains(pos) {
        (GameView { message: msg_protected_cell(), ..g }, f, None)
    } else if selected_gem(g) is None {
        (GameView { message: msg_select_first(), ..g }, f, None)
    } else {
        let idx = g.selected_offer->0;
        let gem = selected_gem(g)->0;
        if g.placed_starters[idx as int] is Some {
            (GameView { message: msg_already_placed(), selected_offer: None, ..g }, f, None)
        } else if !route_exists(f.checkpoints, occupied(f).insert(pos)) {
            (GameView { message: msg_blocks_route(), ..g }, f, None)
        } else {
            let id = f.next_id;
            let starters = g.placed_starters.update(idx as int, Some(id));
            let message = if count_placed(starters) == OFFER_COUNT {
                msg_all_placed()
            } else {
                msg_placed_count(count_placed(starters) as nat)
            };
            let g2 = GameView {
                selected_tower: Some(id),
                selected_offer: None,
                offers: g.offers.update(idx as int, None),
                placed_starters: starters,
                upgrade_source: None,
                message,
                ..g
            };
            let f2 = FieldView {
                board_towers: board_insert(f.board_towers, pos, id),
                towers: f.towers.push(FieldTower { id, pos, tower: spec_tower_for_grade(gem, GemGrade::Chipped), starter: true }),
                next_id: (id + 1) as u64,
                path: new_path,
                ..f
            };
            (g2, f2, Some(id))
        }
    }
}

/// The board entry holding tower `id`, and its cell.
pub fn grid_pos_for_entity(board: &Board, id: u64) -> (found: Option<(usize, GridPos)>)
    requires
        forall|i: int, j: int| 0 <= i < board.towers@.len() && 0 <= j < board.towers@.len() && i != j
            ==> (#[trigger] board.towers@[i]).1 != (#[trigger] board.towers@[j]).1,
    ensures
        match found {
            Some((i, pos)) => find_board_id(board.towers@, id) == Some(i as int) && board.towers@[i as int].0 == pos,
            None => find_board_id(board.towers@, id) is None,
        },
{
    let mut i: usize = 0;
    while i < board.towers.len()
        invariant
            i <= board.towers@.len(),
            forall|a: int, b: int| 0 <= a < board.towers@.len() && 0 <= b < board.towers@.len() && a != b
                ==> (#[trigger] board.towers@[a]).1 != (#[trigger] board.towers@[b]).1,
            forall|k: int| 0 <= k < i ==> (#[trigger] board.towers@[k]).1 != id,
        decreases board.towers@.len() - i,
    {
        if board.towers[i].1 == id {
            proof {
                let k = choose|k: int| 0 <= k < board.towers@.len() && (#[trigger] board.towers@[k]).1 == id;
                assert(k == i);
            }
            return Some((i, board.towers[i].0));
        }
        i = i + 1;
    }
    None
}

/// The board entry for cell `pos`.
fn board_pos_index(board: &Board, pos: GridPos) -> (found: Option<usize>)
    requires
        forall|i: int, j: int| 0 <= i < board.towers@.len() && 0 <= j < board.towers@.len() && i != j
            ==> (#[trigger] board.towers@[i]).0 != (#[trigger] board.towers@[j]).0,
    ensures
        match found {
            Some(i) => find_board_pos(board.towers@, pos) == Some(i as int),
            None => find_board_pos(board.towers@, pos) is None,
        },
{
    let mut i: usize = 0;
    while i < board.towers.len()
        invariant
            i <= board.towers@.len(),
            forall|a: int, b: int| 0 <= a < board.towers@.len() && 0 <= b < board.towers@.len() && a != b
                ==> (#[trigger] board.towers@[a]).0 != (#[trigger] board.towers@[b]).0,
            forall|k: int| 0 <= k < i ==> (#[trigger] board.towers@[k]).0 != pos,
        decreases board.towers@.len() - i,
    {
        if board.towers[i].0 == pos {
            proof {
                let k = choose|k: int| 0 <= k < board.towers@.len() && (#[trigger] board.towers@[k]).0 == pos;
                assert(k == i);
            }
            return Some(i);
        }
        i = i + 1;
    }
    None
}

impl Field {
    /// A field on `board`, with no towers yet.
    pub fn from_board(board: Board) -> (field: Field)
        requires
            board.wf(),
            board.towers@.len() == 0,
        ensures
            field_wf(&field),
            field.board == board,
            field@.towers.len() == 0,
    {
        Field { board, towers: Vec::new(), next_id: 1 }
    }

    /// The index of tower `id`.
    pub fn tower_index(&self, id: u64) -> (found: Option<usize>)
        requires
            field_wf(self),
        ensures
            match found {
                Some(i) => find_tower(self@.towers, id) == Some(i as int),
                None => find_tower(self@.towers, id) is None,
            },
    {
        let mut i: usize = 0;
        while i < self.towers.len()
            invariant
                field_wf(self),
                i <= self.towers@.len(),
                forall|k: int| 0 <= k < i ==> (#[trigger] self.towers@[k]).id != id,
            decreases self.towers@.len() - i,
        {
            if self.towers[i].id == id {
                proof {
                    let k = choose|k: int| 0 <= k < self@.towers.len() && (#[trigger] self@.towers[k]).id == id;
                    assert(k == i);
                }
                return Some(i);
            }
            i = i + 1;
        }
        None
    }

    /// Whether the selected starter could go on `pos`: not a protected or
    /// occupied cell, and the route survives.
    pub fn placement_is_valid(&self, pos: GridPos) -> (valid: bool)
        requires
            field_wf(self),
            spec_in_bounds(pos),
        ensures
            valid == (!protected(self@).contains(pos) && !occupied(self@).contains(pos)
                && route_exists(self@.checkpoints, occupied(self@).insert(pos))),
    {
        let protected = self.board.protected_cells();
        if protected.contains(pos) {
            return false;
        }
        let mut occupied = self.board.occupied_cells();
        if occupied.contains(pos) {
            return false;
        }
        occupied.insert(pos);
        self.board.path_with_blocked(&occupied).is_some()
    }
}

/// Tower `id` is sacrificed: removed, its board cell turned into a wall,
/// and its aura ring hidden.
pub fn sacrifice_tower_to_wall(game: &mut Game, field: &mut Field, id: u64)
    requires
        old(game).wf(),
        field_wf(old(field)),
    ensures
        final(game).wf(),
        field_wf(final(field)),
        final(field)@ == sacrificed(old(field)@, id),
        final(game)@ == (GameView { shown_aura_ranges: without_aura(old(game)@.shown_aura_ranges, id), ..old(game)@ }),
{
    let ghost f0 = field@;
    match field.tower_index(id) {
        Some(i) => {
            field.towers.remove(i);
        },
        None => {},
    }
    let ghost f1 = field@;
    proof {
        assert(f1.towers =~= without_tower(f0.towers, id));
        assert forall|a: int, b: int| 0 <= a < f1.towers.len() && 0 <= b < f1.towers.len() && a != b
            implies (#[trigger] f1.towers[a]).id != (#[trigger] f1.towers[b]).id by {
            if let Some(i) = find_tower(f0.towers, id) {
                let a2 = if a < i { a } else { a + 1 };
                let b2 = if b < i { b } else { b + 1 };
                assert(f1.towers[a] == f0.towers[a2]);
                assert(f1.towers[b] == f0.towers[b2]);
            }
        }
        assert forall|a: int| 0 <= a < f1.towers.len() implies (#[trigger] f1.towers[a]).id < f1.next_id by {
            if let Some(i) = find_tower(f0.towers, id) {
                let a2 = if a < i { a } else { a + 1 };
                assert(f1.towers[a] == f0.towers[a2]);
            }
        }
    }
    proof {
        assert(field.board.towers@ == f0.board_towers);
        assert forall|a: int, b: int| 0 <= a < field.board.towers@.len() && 0 <= b < field.board.towers@.len() && a != b
            implies (#[trigger] field.board.towers@[a]).1 != (#[trigger] field.board.towers@[b]).1 by {
            assert(f0.board_towers[a] == field.board.towers@[a]);
        }
    }
    match grid_pos_for_entity(&field.board, id) {
        Some((bi, pos)) => {
            field.board.towers.remove(bi);
            field.board.walls.insert(pos);
            proof {
                let f2 = field@;
                assert(f2.board_towers =~= f0.board_towers.remove(bi as int));
                assert(f2 == sacrificed(f0, id));
                assert forall|a: int, b: int| 0 <= a < f2.board_towers.len() && 0 <= b < f2.board_towers.len() && a != b
                    implies (#[trigger] f2.board_towers[a]).0 != (#[trigger] f2.board_towers[b]).0
                        && f2.board_towers[a].1 != f2.board_towers[b].1 by {
                    let a2 = if a < bi { a } else { a + 1 };
                    let b2 = if b < bi { b } else { b + 1 };
                    assert(f2.board_towers[a] == f0.board_towers[a2]);
                    assert(f2.board_towers[b] == f0.board_towers[b2]);
                }
                assert forall|a: int| 0 <= a < f2.board_towers.len() implies (#[trigger] f2.board_towers[a]).1 < f2.next_id by {
                    let a2 = if a < bi { a } else { a + 1 };
                    assert(f2.board_towers[a] == f0.board_towers[a2]);
                }
                assert forall|a: int| 0 <= a < f2.board_towers.len() implies spec_in_bounds((#[trigger] field.board.towers@[a]).0) by {
                    let a2 = if a < bi { a } else { a + 1 };
                    assert(field.board.towers@[a] == f0.board_towers[a2]);
                }
            }
        },
        None => {},
    }
    game.forget_aura_range(id);
}


/// Places the selected starter gem (Chipped) on `pos` and returns the new
/// tower's id, unless the cell is protected, nothing placeable is selected,
/// that offer was already placed, or the route would be cut.
pub fn place_tower(game: &mut Game, field: &mut Field, pos: GridPos) -> (placed: Option<u64>)
    requires
        old(game).wf(),
        field_wf(old(field)),
        spec_in_bounds(pos),
        old(field).next_id < u64::MAX,
    ensures
        final(game).wf(),
        field_wf(final(field)),
        (final(game)@, final(field)@, placed) == placement(old(game)@, old(field)@, pos, final(field)@.path),
        placed is Some ==> planned_route(final(field)@.path, final(field)@.checkpoints, occupied(final(field)@)),
{
    let ghost g0 = game@;
    let ghost f0 = field@;
    let protected = field.board.protected_cells();
    if protected.contains(pos) {
        let mut message = String::new();
        push_str(&mut message, "Start, checkpoints, and finish stay open; build around them to shape the path.");
        game.message = message;
        return None;
    }
    let gem = match game.selected_gem() {
        Some(g) => g,
        None => {
            let mut message = String::new();
            push_str(&mut message, "Select a chipped gem before placing a tower.");
            game.message = message;
            return None;
        },
    };
    let offer_index = match game.selected_offer {
        Some(i) => i,
        None => {
            let mut message = String::new();
            push_str(&mut message, "Select a chipped gem before placing a tower.");
            game.message = message;
            return None;
        },
    };
    let grade = GemGrade::Chipped;
    if game.placed_starters[offer_index].is_some() {
        let mut message = String::new();
        push_str(&mut message, "That chipped gem has already been placed.");
        game.message = message;
        game.selected_offer = None;
        return None;
    }
    let mut blocked_after = field.board.occupied_cells();
    blocked_after.insert(pos);
    let new_path = match field.board.path_with_blocked(&blocked_after) {
        Some(p) => p,
        None => {
            let mut message = String::new();
            push_str(&mut message, "That placement would block the checkpoint route.");
            game.message = message;
            return None;
        },
    };
    let id = field.next_id;
    field.next_id = id + 1;
    field.towers.push(FieldTower { id, pos, tower: tower_for_grade(gem, grade), starter: true });
    match board_pos_index(&field.board, pos) {
        Some(bi) => {
            field.board.towers.set(bi, (pos, id));
        },
        None => {
            field.board.towers.push((pos, id));
        },
    }
    field.board.path = new_path;
    proof {
        let f = field@;
        assert(f.board_towers =~= board_insert(f0.board_towers, pos, id));
        lemma_board_insert_cells(f0.board_towers, pos, id);
        assert(occupied(f) =~= occupied(f0).insert(pos));
        assert(blocked_after@ == occupied(f0).insert(pos));
        assert forall|a: int, b: int| 0 <= a < f.board_towers.len() && 0 <= b < f.board_towers.len() && a != b
            implies (#[trigger] f.board_towers[a]).0 != (#[trigger] f.board_towers[b]).0
                && f.board_towers[a].1 != f.board_towers[b].1 by {
            if a < f0.board_towers.len() && f.board_towers[a] != f0.board_towers[a] {
                assert(f.board_towers[a] == (pos, id));
            }
            if b < f0.board_towers.len() && f.board_towers[b] != f0.board_towers[b] {
                assert(f.board_towers[b] == (pos, id));
            }
        }
        assert forall|a: int| 0 <= a < f.board_towers.len() implies (#[trigger] f.board_towers[a]).1 < f.next_id by {
            if a < f0.board_towers.len() && f.board_towers[a] != f0.board_towers[a] {
                assert(f.board_towers[a] == (pos, id));
            }
        }
        assert forall|a: int| 0 <= a < f.board_towers.len() implies spec_in_bounds((#[trigger] field.board.towers@[a]).0) by {
            if a < f0.board_towers.len() && f.board_towers[a] != f0.board_towers[a] {
                assert(f.board_towers[a] == (pos, id));
            }
        }
        assert forall|a: int, b: int| 0 <= a < f.towers.len() && 0 <= b < f.towers.len() && a != b
            implies (#[trigger] f.towers[a]).id != (#[trigger] f.towers[b]).id by {
            if a == f0.towers.len() {
                assert(f0.towers[b].id < id);
            } else if b == f0.towers.len() {
                assert(f0.towers[a].id < id);
            }
        }
    }
    game.selected_tower = Some(id);
    game.selected_offer = None;
    game.offers.set(offer_index, None);
    game.placed_starters.set(offer_index, Some(id));
    game.upgrade_source = None;
    let placed = game.placed_starter_count();
    let all_placed = game.all_starters_placed();
    proof {
        lemma_count_placed_bound(game.placed_starters@);
    }
    let mut message = String::new();
    if all_placed {
        push_str(&mut message, "All five placed. Click one to select, then Confirm (Ctrl+click to keep instantly).");
    } else {
        push_str(&mut message, "Placed starter ");
        push_decimal(&mut message, placed as u64);
        push_str(&mut message, " of 5. Select and place the next chipped gem.");
    }
    game.message = message;
    proof {
        assert(game@.offers =~= g0.offers.update(offer_index as int, None));
        assert(game@.placed_starters =~= g0.placed_starters.update(offer_index as int, Some(id)));
    }
    Some(id)
}


pub open spec fn cells_distinct(bt: Seq<(GridPos, u64)>) -> bool {
    forall|i: int, j: int| 0 <= i < bt.len() && 0 <= j < bt.len() && i != j ==> (#[trigger] bt[i]).0 != (#[trigger] bt[j]).0
}

proof fn lemma_board_insert_cells(bt: Seq<(GridPos, u64)>, pos: GridPos, id: u64)
    ensures
        tower_cells(board_insert(bt, pos, id)) == tower_cells(bt).insert(pos),
{
    let r = board_insert(bt, pos, id);
    assert forall|p: GridPos| tower_cells(r).contains(p) == tower_cells(bt).insert(pos).contains(p) by {
        match find_board_pos(bt, pos) {
            Some(i) => {
                if tower_cells(r).contains(p) {
                    let k = choose|k: int| 0 <= k < r.len() && (#[trigger] r[k]).0 == p;
                    if k != i {
                        assert(r[k] == bt[k]);
                    }
                }
                if tower_cells(bt).contains(p) {
                    let k = choose|k: int| 0 <= k < bt.len() && (#[trigger] bt[k]).0 == p;
                    if k != i {
                        assert(r[k] == bt[k]);
                    } else {
                        assert(r[i].0 == p);
                    }
                }
                if p == pos {
                    assert(r[i].0 == p);
                }
            },
            None => {
                if tower_cells(r).contains(p) {
                    let k = choose|k: int| 0 <= k < r.len() && (#[trigger] r[k]).0 == p;
                    if k < bt.len() {
                        assert(r[k] == bt[k]);
                    }
                }
                if tower_cells(bt).contains(p) {
                    let k = choose|k: int| 0 <= k < bt.len() && (#[trigger] bt[k]).0 == p;
                    assert(r[k] == bt[k]);
                }
                if p == pos {
                    assert(r[bt.len() as int].0 == p);
                }
            },
        }
    }
    assert(tower_cells(r) =~= tower_cells(bt).insert(pos));
}

/// A placement stands only when enemies can still walk from the start
/// through every checkpoint to the finish with the new tower in place; a
/// placement that would cut the route is refused and leaves the field as it
/// was.
pub proof fn law_placement_keeps_route(g: GameView, f: FieldView, pos: GridPos, new_path: Seq<GridPos>)
    ensures
        placement(g, f, pos, new_path).2 is Some ==> occupied(placement(g, f, pos, new_path).1) == occupied(f).insert(pos)
            && route_exists(f.checkpoints, occupied(placement(g, f, pos, new_path).1)),
        !route_exists(f.checkpoints, occupied(f).insert(pos)) ==> placement(g, f, pos, new_path).2 is None
            && placement(g, f, pos, new_path).1 == f,
{
    let r = placement(g, f, pos, new_path);
    if r.2 is Some {
        lemma_board_insert_cells(f.board_towers, pos, f.next_id);
        assert(occupied(r.1) =~= occupied(f).insert(pos));
    }
}


/// Nothing stands on the start, the finish or a checkpoint.
pub open spec fn targets_open(f: FieldView) -> bool {
    forall|p: GridPos| #[trigger] protected(f).contains(p) ==> !occupied(f).contains(p)
}

/// An accepted placement keeps the start, checkpoints and finish free, and
/// the route laid around the old obstacles and the new tower runs clear of
/// every obstacle: each straight run between waypoints crosses no blocked
/// cell and squeezes between no two blocked corners.
pub proof fn law_placement_route_clear(g: GameView, f: FieldView, pos: GridPos, new_path: Seq<GridPos>)
    requires
        targets_open(f),
        forall|i: int| 0 <= i < f.checkpoints.len() ==> spec_in_bounds(#[trigger] f.checkpoints[i]),
        planned_route(new_path, f.checkpoints, occupied(f).insert(pos)),
        placement(g, f, pos, new_path).2 is Some,
    ensures
        targets_open(placement(g, f, pos, new_path).1),
        segments_clear(new_path, occupied(placement(g, f, pos, new_path).1)),
{
    let r = placement(g, f, pos, new_path).1;
    lemma_board_insert_cells(f.board_towers, pos, f.next_id);
    assert(occupied(r) =~= occupied(f).insert(pos));
    assert(protected(r) == protected(f));
    assert(!protected(f).contains(pos));
    let t = route_targets(f.checkpoints);
    assert forall|i: int| 0 <= i < t.len() implies is_open(#[trigger] t[i], occupied(r)) by {
        if i == 0 {
            assert(t[i] == spec_start_pos());
            assert(protected(f).contains(t[i]));
        } else if i == t.len() - 1 {
            assert(t[i] == spec_finish_pos());
            assert(protected(f).contains(t[i]));
        } else {
            assert(t[i] == f.checkpoints[i - 1]);
            assert(f.checkpoints.contains(t[i]));
            assert(protected(f).contains(t[i]));
        }
    }
    law_planned_route_clear(new_path, f.checkpoints, occupied(r));
}

/// Sacrificing a tower leaves the blocked cells as they were: its cell
/// turns into a wall, so the enemy route is not affected.
pub proof fn law_sacrifice_keeps_blocked_cells(f: FieldView, id: u64)
    requires
        cells_distinct(f.board_towers),
    ensures
        occupied(sacrificed(f, id)) == occupied(f),
{
    let r = sacrificed(f, id);
    match find_board_id(f.board_towers, id) {
        Some(bi) => {
            let bt = f.board_towers;
            let pos = bt[bi].0;
            let rt = bt.remove(bi);
            assert forall|p: GridPos| occupied(r).contains(p) == occupied(f).contains(p) by {
                if tower_cells(rt).contains(p) {
                    let k = choose|k: int| 0 <= k < rt.len() && (#[trigger] rt[k]).0 == p;
                    let k2 = if k < bi { k } else { k + 1 };
                    assert(rt[k] == bt[k2]);
                }
                if tower_cells(bt).contains(p) && p != pos {
                    let k = choose|k: int| 0 <= k < bt.len() && (#[trigger] bt[k]).0 == p;
                    assert(k != bi);
                    let k2 = if k < bi { k } else { k - 1 };
                    assert(rt[k2] == bt[k]);
                }
                if p == pos {
                    assert(tower_cells(bt).contains(p));
                }
            }
            assert(occupied(r) =~= occupied(f));
        },
        None => {
            assert(occupied(r) =~= occupied(f));
        },
    }
}


pub open spec fn msg_pick_different() -> Seq<char> {
    "Pick a different matching tower to sacrifice."@
}

pub open spec fn msg_sacrifice_starter() -> Seq<char> {
    "Sacrifice a placed tower, not a starter you haven't kept."@
}

pub open spec fn msg_target_gone() -> Seq<char> {
    "That upgrade target is no longer available."@
}

pub open spec fn msg_needs_another(grade: GemGrade, gem: GemKind) -> Seq<char> {
    "Upgrade needs another "@ + spec_grade_name(grade) + " "@ + spec_gem_name(gem) + "."@
}

pub open spec fn msg_already_perfect() -> Seq<char> {
    "That tower is already Perfect."@
}

pub open spec fn msg_upgraded(grade: GemGrade, gem: GemKind) -> Seq<char> {
    "Upgraded to "@ + spec_grade_name(grade) + " "@ + spec_gem_name(gem) + "."@
}

/// A basic tower of exactly this gem and grade.
pub open spec fn is_basic(t: Tower, gem: GemKind, grade: GemGrade) -> bool {
    t.special is None && t.gem == gem && t.grade == grade
}

/// The outcome of clicking tower `sacrifice` while an upgrade is pending:
/// a different, kept, basic duplicate of the source is consumed (turned into
/// a wall) and the source moves up one grade.
pub open spec fn upgrade_outcome(g: GameView, f: FieldView, sacrifice: u64) -> (GameView, FieldView) {
    match g.upgrade_source {
        None => (g, f),
        Some(source) => {
            if sacrifice == source {
                (GameView { message: msg_pick_different(), ..g }, f)
            } else if find_tower(f.towers, sacrifice) matches Some(si) && f.towers[si].starter {
                (GameView { message: msg_sacrifice_starter(), ..g }, f)
            } else if find_tower(f.towers, source) is None || find_tower(f.towers, sacrifice) is None {
                (GameView { message: msg_target_gone(), upgrade_source: None, ..g }, f)
            } else {
                let ai = find_tower(f.towers, source)->0;
                let a = f.towers[ai].tower;
                let b = f.towers[find_tower(f.towers, sacrifice)->0].tower;
                if !is_basic(b, a.gem, a.grade) {
                    (GameView { message: msg_needs_another(a.grade, a.gem), ..g }, f)
                } else {
                    match spec_next_grade(a.grade) {
                        None => (GameView { message: msg_already_perfect(), upgrade_source: None, ..g }, f),
                        Some(next) => {
                            let f1 = FieldView {
                                towers: f.towers.update(ai, FieldTower { tower: Tower { grade: next, ..a }, ..f.towers[ai] }),
                                ..f
                            };
                            (GameView {
                                shown_aura_ranges: without_aura(g.shown_aura_ranges, sacrifice),
                                selected_tower: Some(source),
                                selected_offer: None,
                                upgrade_source: None,
                                message: msg_upgraded(next, a.gem),
                                ..g
                            }, sacrificed(f1, sacrifice))
                        },
                    }
                }
            }
        },
    }
}

/// An upgrade only ever consumes a matching duplicate: whenever clicking
/// `sacrifice` changes the field, an upgrade was pending from another tower,
/// both towers are on the field, and the sacrificed tower is a kept plain gem
/// of the same kind and the same grade as the source, which moves up to the
/// next grade.
pub proof fn law_upgrade_takes_matching_duplicate(g: GameView, f: FieldView, sacrifice: u64)
    requires
        upgrade_outcome(g, f, sacrifice).1 != f,
    ensures
        g.upgrade_source is Some,
        g.upgrade_source->0 != sacrifice,
        find_tower(f.towers, g.upgrade_source->0) is Some,
        find_tower(f.towers, sacrifice) is Some,
        ({
            let a = f.towers[find_tower(f.towers, g.upgrade_source->0)->0];
            let b = f.towers[find_tower(f.towers, sacrifice)->0];
            &&& !b.starter
            &&& b.tower.special is None
            &&& b.tower.gem == a.tower.gem
            &&& b.tower.grade == a.tower.grade
            &&& spec_next_grade(a.tower.grade) is Some
        }),
{
}

fn set_message(game: &mut Game, text: &str)
    requires
        old(game).wf(),
    ensures
        final(game).wf(),
        final(game)@ == (GameView { message: text@, ..old(game)@ }),
{
    let mut message = String::new();
    push_str(&mut message, text);
    game.message = message;
}

/// Consumes `sacrifice` for the pending upgrade; see `upgrade_outcome`.
pub fn complete_upgrade(game: &mut Game, field: &mut Field, sacrifice: u64)
    requires
        old(game).wf(),
        field_wf(old(field)),
    ensures
        final(game).wf(),
        field_wf(final(field)),
        (final(game)@, final(field)@) == upgrade_outcome(old(game)@, old(field)@, sacrifice),
{
    let ghost g0 = game@;
    let ghost f0 = field@;
    let source = match game.upgrade_source {
        Some(s) => s,
        None => return,
    };
    if sacrifice == source {
        set_message(game, "Pick a different matching tower to sacrifice.");
        return;
    }
    let si = field.tower_index(sacrifice);
    if let Some(i) = si {
        if field.towers[i].starter {
            set_message(game, "Sacrifice a placed tower, not a starter you haven't kept.");
            return;
        }
    }
    let ai = field.tower_index(source);
    if ai.is_none() || si.is_none() {
        set_message(game, "That upgrade target is no longer available.");
        game.upgrade_source = None;
        return;
    }
    let ai = ai.unwrap();
    let si = si.unwrap();
    let a = field.towers[ai].tower;
    let b = field.towers[si].tower;
    if !b.is_basic(a.gem, a.grade) {
        let mut message = String::new();
        push_str(&mut message, "Upgrade needs another ");
        push_str(&mut message, a.grade.name());
        push_str(&mut message, " ");
        push_str(&mut message, a.gem.name());
        push_str(&mut message, ".");
        game.message = message;
        return;
    }
    let next = match a.grade.next() {
        Some(n) => n,
        None => {
            set_message(game, "That tower is already Perfect.");
            game.upgrade_source = None;
            return;
        },
    };
    let mut upgraded = field.towers[ai];
    upgraded.tower.grade = next;
    field.towers.set(ai, upgraded);
    proof {
        let f1 = field@;
        assert(f1.towers =~= f0.towers.update(ai as int, FieldTower { tower: Tower { grade: next, ..a }, ..f0.towers[ai as int] }));
        assert forall|x: int, y: int| 0 <= x < f1.towers.len() && 0 <= y < f1.towers.len() && x != y
            implies (#[trigger] f1.towers[x]).id != (#[trigger] f1.towers[y]).id by {
            assert(f1.towers[x].id == f0.towers[x].id && f1.towers[y].id == f0.towers[y].id);
        }
        assert forall|x: int| 0 <= x < f1.towers.len() implies (#[trigger] f1.towers[x]).id < f1.next_id by {
            assert(f1.towers[x].id == f0.towers[x].id);
        }
    }
    sacrifice_tower_to_wall(game, field, sacrifice);
    game.selected_tower = Some(source);
    game.selected_offer = None;
    game.upgrade_source = None;
    let mut message = String::new();
    push_str(&mut message, "Upgraded to ");
    push_str(&mut message, next.name());
    push_str(&mut message, " ");
    push_str(&mut message, a.gem.name());
    push_str(&mut message, ".");
    game.message = message;
}


pub open spec fn msg_starter_gone() -> Seq<char> {
    "That starter is no longer available."@
}

/// `ts` with tower `id` no longer marked as a starter.
pub open spec fn unmark_starter(ts: Seq<FieldTower>, id: u64) -> Seq<FieldTower> {
    match find_tower(ts, id) {
        Some(i) => ts.update(i, FieldTower { starter: false, ..ts[i] }),
        None => ts,
    }
}

/// Walks the placed starter slots in order: the kept one stays (as an
/// ordinary tower), every other one on the board becomes a wall.
pub open spec fn settle_starters(auras: Seq<u64>, f: FieldView, slots: Seq<Option<u64>>, kept: u64) -> (Seq<u64>, FieldView)
    decreases slots.len(),
{
    if slots.len() == 0 {
        (auras, f)
    } else {
        let (a1, f1) = settle_starters(auras, f, slots.drop_last(), kept);
        match slots.last() {
            None => (a1, f1),
            Some(e) => if e == kept {
                (a1, FieldView { towers: unmark_starter(f1.towers, kept), ..f1 })
            } else if find_board_id(f1.board_towers, e) is Some {
                (without_aura(a1, e), sacrificed(f1, e))
            } else {
                (a1, f1)
            },
        }
    }
}

/// Settling the starters leaves the route and checkpoints as they were.
proof fn lemma_settle_keeps_path(auras: Seq<u64>, f: FieldView, slots: Seq<Option<u64>>, kept: u64)
    ensures
        settle_starters(auras, f, slots, kept).1.path == f.path,
        settle_starters(auras, f, slots, kept).1.checkpoints == f.checkpoints,
    decreases slots.len(),
{
    if slots.len() > 0 {
        lemma_settle_keeps_path(auras, f, slots.drop_last(), kept);
    }
}

/// The player keeps starter `kept`: the other starters become walls, the
/// route is recomputed (`path` is what the board takes), and the wave
/// countdown begins with the kept tower selected.
pub open spec fn keep_outcome(g: GameView, f: FieldView, kept: u64, path: Seq<GridPos>) -> (GameView, FieldView) {
    match find_tower(f.towers, kept) {
        None => (GameView { message: msg_starter_gone(), ..g }, f),
        Some(ki) => {
            let (auras, f1) = settle_starters(g.shown_aura_ranges, f, g.placed_starters, kept);
            (GameView {
                phase: Phase::Countdown,
                offers: empty_slots::<GemKind>(OFFER_COUNT as nat),
                selected_offer: None,
                placed_starters: empty_slots::<u64>(OFFER_COUNT as nat),
                keep_candidate: None,
                selected_tower: Some(kept),
                upgrade_source: None,
                countdown_milli: WAVE_COUNTDOWN_MILLI,
                message: msg_kept(f.towers[ki].tower.gem),
                shown_aura_ranges: auras,
                ..g
            }, FieldView { path, ..f1 })
        },
    }
}

/// Keeps starter `kept`; see `keep_outcome`. The route is recomputed around
/// the new walls (it is kept as it was if the checkpoints are cut off).
pub fn keep_starter(game: &mut Game, field: &mut Field, kept: u64)
    requires
        old(game).wf(),
        field_wf(old(field)),
    ensures
        final(game).wf(),
        field_wf(final(field)),
        (final(game)@, final(field)@) == keep_outcome(old(game)@, old(field)@, kept, final(field)@.path),
        find_tower(old(field)@.towers, kept) is Some ==> (
            route_exists(final(field)@.checkpoints, occupied(final(field)@))
                ==> planned_route(final(field)@.path, final(field)@.checkpoints, occupied(final(field)@))),
        !route_exists(final(field)@.checkpoints, occupied(final(field)@)) ==> final(field)@.path == old(field)@.path,
{
    let ghost g0 = game@;
    let ghost f0 = field@;
    let ki = match field.tower_index(kept) {
        Some(i) => i,
        None => {
            set_message(game, "That starter is no longer available.");
            return;
        },
    };
    let kept_gem = field.towers[ki].tower.gem;
    let n = game.placed_starters.len();
    let mut i: usize = 0;
    while i < n
        invariant
            game.wf(),
            field_wf(field),
            n == g0.placed_starters.len(),
            i <= n,
            game@ == (GameView { shown_aura_ranges: game@.shown_aura_ranges, ..g0 }),
            (game@.shown_aura_ranges, field@) == settle_starters(g0.shown_aura_ranges, f0, g0.placed_starters.subrange(0, i as int), kept),
        decreases n - i,
    {
        let ghost sub = g0.placed_starters.subrange(0, i + 1);
        proof {
            assert(sub.drop_last() =~= g0.placed_starters.subrange(0, i as int));
            assert(sub.last() == g0.placed_starters[i as int]);
        }
        match game.placed_starters[i] {
            Some(e) => {
                if e == kept {
                    match field.tower_index(kept) {
                        Some(k) => {
                            let ghost fb = field@;
                            let mut t = field.towers[k];
                            t.starter = false;
                            field.towers.set(k, t);
                            proof {
                                assert(field@.towers =~= unmark_starter(fb.towers, kept));
                                assert forall|x: int, y: int| 0 <= x < field@.towers.len() && 0 <= y < field@.towers.len() && x != y
                                    implies (#[trigger] field@.towers[x]).id != (#[trigger] field@.towers[y]).id by {
                                    assert(field@.towers[x].id == fb.towers[x].id && field@.towers[y].id == fb.towers[y].id);
                                }
                                assert forall|x: int| 0 <= x < field@.towers.len() implies (#[trigger] field@.towers[x]).id < field@.next_id by {
                                    assert(field@.towers[x].id == fb.towers[x].id);
                                }
                                assert(field@.board_towers == fb.board_towers);
                                assert(field.board.wf());
                                assert(field_wf(field));
                            }
                        },
                        None => {},
                    }
                } else {
                    proof {
                        assert forall|a: int, b: int| 0 <= a < field.board.towers@.len() && 0 <= b < field.board.towers@.len() && a != b
                            implies (#[trigger] field.board.towers@[a]).1 != (#[trigger] field.board.towers@[b]).1 by {
                            assert(field@.board_towers[a] == field.board.towers@[a]);
                        }
                    }
                    if grid_pos_for_entity(&field.board, e).is_some() {
                        sacrifice_tower_to_wall(game, field, e);
                    }
                    assert(field_wf(field));
                }
            },
            None => {},
        }
        i = i + 1;
    }
    proof {
        assert(g0.placed_starters.subrange(0, n as int) =~= g0.placed_starters);
    }
    let ghost settled = field@;
    proof {
        lemma_settle_keeps_path(g0.shown_aura_ranges, f0, g0.placed_starters, kept);
    }
    field.board.recalculate_path();
    proof {
        assert(field@ == FieldView { path: field@.path, ..settled });
        assert(occupied(field@) == field.board.spec_occupied());
    }
    game.begin_countdown(kept_gem);
    game.selected_tower = Some(kept);
    game.upgrade_source = None;
    game.keep_candidate = None;
}


pub open spec fn msg_cannot_upgrade() -> Seq<char> {
    "That tower cannot be upgraded with a duplicate."@
}

pub open spec fn msg_need_match(grade: GemGrade, gem: GemKind) -> Seq<char> {
    "Need another placed "@ + spec_grade_name(grade) + " "@ + spec_gem_name(gem) + " to upgrade."@
}

pub open spec fn msg_pick_sacrifice(grade: GemGrade, gem: GemKind) -> Seq<char> {
    "Click a highlighted "@ + spec_grade_name(grade) + " "@ + spec_gem_name(gem) + " to sacrifice."@
}

/// Another placed (kept) basic tower of this gem and grade exists.
pub open spec fn upgrade_match(ts: Seq<FieldTower>, source: u64, gem: GemKind, grade: GemGrade) -> bool {
    exists|i: int| 0 <= i < ts.len() && (#[trigger] ts[i]).id != source && !ts[i].starter && is_basic(ts[i].tower, gem, grade)
}

/// Whether another placed (kept) tower of the same gem and grade exists to
/// feed an upgrade of `source`.
pub fn upgrade_match_exists(field: &Field, source: u64, gem: GemKind, grade: GemGrade) -> (found: bool)
    ensures
        found == upgrade_match(field@.towers, source, gem, grade),
{
    let mut i: usize = 0;
    while i < field.towers.len()
        invariant
            i <= field.towers@.len(),
            forall|k: int| 0 <= k < i ==> !((#[trigger] field.towers@[k]).id != source && !field.towers@[k].starter
                && is_basic(field.towers@[k].tower, gem, grade)),
        decreases field.towers@.len() - i,
    {
        let t = field.towers[i];
        if t.id != source && !t.starter && t.tower.is_basic(gem, grade) {
            return true;
        }
        i = i + 1;
    }
    false
}

/// Upgrade mode for the selected tower: it must be a basic tower below
/// Perfect with a placed duplicate to sacrifice.
pub open spec fn upgrade_selection(g: GameView, f: FieldView) -> GameView {
    match g.selected_tower {
        None => g,
        Some(source) => match find_tower(f.towers, source) {
            None => GameView { selected_tower: None, ..g },
            Some(i) => {
                let t = f.towers[i].tower;
                if !(t.special is None && spec_next_grade(t.grade) is Some) {
                    GameView { message: msg_cannot_upgrade(), ..g }
                } else if !upgrade_match(f.towers, source, t.gem, t.grade) {
                    GameView { message: msg_need_match(t.grade, t.gem), ..g }
                } else {
                    GameView { upgrade_source: Some(source), message: msg_pick_sacrifice(t.grade, t.gem), ..g }
                }
            },
        },
    }
}

/// Enters upgrade mode for the selected tower; see `upgrade_selection`.
pub fn begin_upgrade_selection(game: &mut Game, field: &Field)
    requires
        old(game).wf(),
        field_wf(field),
    ensures
        final(game).wf(),
        final(game)@ == upgrade_selection(old(game)@, field@),
{
    let source = match game.selected_tower {
        Some(s) => s,
        None => return,
    };
    let i = match field.tower_index(source) {
        Some(i) => i,
        None => {
            game.selected_tower = None;
            return;
        },
    };
    let t = field.towers[i].tower;
    if !t.can_regular_upgrade() {
        set_message(game, "That tower cannot be upgraded with a duplicate.");
        return;
    }
    if !upgrade_match_exists(field, source, t.gem, t.grade) {
        let mut message = String::new();
        push_str(&mut message, "Need another placed ");
        push_str(&mut message, t.grade.name());
        push_str(&mut message, " ");
        push_str(&mut message, t.gem.name());
        push_str(&mut message, " to upgrade.");
        game.message = message;
        return;
    }
    game.upgrade_source = Some(source);
    let mut message = String::new();
    push_str(&mut message, "Click a highlighted ");
    push_str(&mut message, t.grade.name());
    push_str(&mut message, " ");
    push_str(&mut message, t.gem.name());
    push_str(&mut message, " to sacrifice.");
    game.message = message;
}

/// What the action button does for a tower.
pub enum SelectedTowerAction {
    RegularUpgrade,
    CombineSpecial(SpecialRecipe),
    UpgradeSpecial(SpecialGem),
}

/// The kind of action for a tower: upgrade its special, combine its
/// recipe, or a regular duplicate upgrade.
pub open spec fn action_kind(t: Tower) -> int {
    if t.special matches Some(s) && spec_special_upgrade(s) is Some {
        2
    } else if spec_recipe_result(t.gem, t.grade) is Some {
        1
    } else {
        0
    }
}

/// The action for tower `source` (forgetting the selection when it is gone).
pub fn selected_tower_action(source: u64, game: &mut Game, field: &Field) -> (action: Option<SelectedTowerAction>)
    requires
        old(game).wf(),
        field_wf(field),
    ensures
        final(game).wf(),
        match find_tower(field@.towers, source) {
            None => action is None && final(game)@ == (GameView { selected_tower: None, ..old(game)@ }),
            Some(i) => final(game)@ == old(game)@ && match action {
                Some(SelectedTowerAction::UpgradeSpecial(s)) => action_kind(field@.towers[i].tower) == 2
                    && field@.towers[i].tower.special == Some(s),
                Some(SelectedTowerAction::CombineSpecial(r)) => action_kind(field@.towers[i].tower) == 1
                    && r.source == (field@.towers[i].tower.gem, field@.towers[i].tower.grade)
                    && spec_recipe_result(r.source.0, r.source.1) == Some(r.result)
                    && exists|k: int| crate::recipe::is_table_recipe(r, k),
                Some(SelectedTowerAction::RegularUpgrade) => action_kind(field@.towers[i].tower) == 0,
                None => false,
            },
        },
{
    let i = match field.tower_index(source) {
        Some(i) => i,
        None => {
            game.selected_tower = None;
            return None;
        },
    };
    let t = field.towers[i].tower;
    if let Some(special) = t.special {
        if special.upgrade().is_some() {
            return Some(SelectedTowerAction::UpgradeSpecial(special));
        }
    }
    match special_recipe_for_source(t.gem, t.grade) {
        Some(recipe) => Some(SelectedTowerAction::CombineSpecial(recipe)),
        None => Some(SelectedTowerAction::RegularUpgrade),
    }
}


/// Tower `t` claims the first still-unclaimed component slot from `k` on
/// that it matches.
pub open spec fn claim(found: Seq<Option<u64>>, comps: Seq<(GemKind, GemGrade)>, t: FieldTower, k: int) -> Seq<Option<u64>>
    decreases comps.len() - k,
{
    if k < 0 || k >= comps.len() || k >= found.len() {
        found
    } else if found[k] is None && is_basic(t.tower, comps[k].0, comps[k].1) {
        found.update(k, Some(t.id))
    } else {
        claim(found, comps, t, k + 1)
    }
}

/// Slots claimed by the towers of `ts` in order, skipping the source and
/// unkept starters.
pub open spec fn assign_components(ts: Seq<FieldTower>, source: u64, comps: Seq<(GemKind, GemGrade)>) -> Seq<Option<u64>>
    decreases ts.len(),
{
    if ts.len() == 0 {
        Seq::new(comps.len(), |i: int| None::<u64>)
    } else {
        let prev = assign_components(ts.drop_last(), source, comps);
        let t = ts.last();
        if t.id == source || t.starter { prev } else { claim(prev, comps, t, 0) }
    }
}

/// The claimed ids, when every slot is claimed.
pub open spec fn all_claimed(found: Seq<Option<u64>>) -> Option<Seq<u64>> {
    if forall|i: int| 0 <= i < found.len() ==> (#[trigger] found[i]) is Some {
        Some(found.map_values(|o: Option<u64>| o->0))
    } else {
        None
    }
}

proof fn lemma_claim_len(found: Seq<Option<u64>>, comps: Seq<(GemKind, GemGrade)>, t: FieldTower, k: int)
    ensures
        claim(found, comps, t, k).len() == found.len(),
    decreases comps.len() - k,
{
    if !(k < 0 || k >= comps.len() || k >= found.len()) && !(found[k] is None && is_basic(t.tower, comps[k].0, comps[k].1)) {
        lemma_claim_len(found, comps, t, k + 1);
    }
}

proof fn lemma_assign_len(ts: Seq<FieldTower>, source: u64, comps: Seq<(GemKind, GemGrade)>)
    ensures
        assign_components(ts, source, comps).len() == comps.len(),
    decreases ts.len(),
{
    if ts.len() > 0 {
        lemma_assign_len(ts.drop_last(), source, comps);
        lemma_claim_len(assign_components(ts.drop_last(), source, comps), comps, ts.last(), 0);
    }
}

/// The tower `t` is a plain gem matching `comp` exactly, in kind and grade.
pub open spec fn matches_component(t: FieldTower, comp: (GemKind, GemGrade)) -> bool {
    t.tower.special is None && t.tower.gem == comp.0 && t.tower.grade == comp.1
}

/// Some tower of `ts`, neither the source nor an unkept starter, has id `id`
/// and matches `comp` exactly.
pub open spec fn eligible_match(ts: Seq<FieldTower>, source: u64, id: u64, comp: (GemKind, GemGrade)) -> bool {
    exists|j: int| 0 <= j < ts.len() && (#[trigger] ts[j]).id == id && id != source && !ts[j].starter
        && matches_component(ts[j], comp)
}

proof fn lemma_claim_entries(found: Seq<Option<u64>>, comps: Seq<(GemKind, GemGrade)>, t: FieldTower, k: int)
    ensures
        claim(found, comps, t, k).len() == found.len(),
        forall|i: int| 0 <= i < found.len() ==> #[trigger] claim(found, comps, t, k)[i] == found[i]
            || (claim(found, comps, t, k)[i] == Some(t.id) && i < comps.len() && matches_component(t, comps[i])),
    decreases comps.len() - k,
{
    if !(k < 0 || k >= comps.len() || k >= found.len()) && !(found[k] is None && is_basic(t.tower, comps[k].0, comps[k].1)) {
        lemma_claim_entries(found, comps, t, k + 1);
    }
}

proof fn lemma_assign_entries(ts: Seq<FieldTower>, source: u64, comps: Seq<(GemKind, GemGrade)>)
    ensures
        assign_components(ts, source, comps).len() == comps.len(),
        forall|i: int| 0 <= i < comps.len() && (#[trigger] assign_components(ts, source, comps)[i]) is Some
            ==> eligible_match(ts, source, assign_components(ts, source, comps)[i]->0, comps[i]),
    decreases ts.len(),
{
    if ts.len() > 0 {
        let d = ts.drop_last();
        lemma_assign_entries(d, source, comps);
        let prev = assign_components(d, source, comps);
        let t = ts.last();
        let cur = assign_components(ts, source, comps);
        assert forall|id: u64, comp: (GemKind, GemGrade)| #[trigger] eligible_match(d, source, id, comp)
            implies eligible_match(ts, source, id, comp) by {
            let j = choose|j: int| 0 <= j < d.len() && (#[trigger] d[j]).id == id && id != source && !d[j].starter
                && matches_component(d[j], comp);
            assert(ts[j] == d[j]);
        }
        if !(t.id == source || t.starter) {
            lemma_claim_entries(prev, comps, t, 0);
            assert forall|i: int| 0 <= i < comps.len() && (#[trigger] cur[i]) is Some
                implies eligible_match(ts, source, cur[i]->0, comps[i]) by {
                if cur[i] != prev[i] {
                    assert(ts[ts.len() - 1] == t);
                } else {
                    assert(eligible_match(d, source, prev[i]->0, comps[i]));
                }
            }
        } else {
            assert forall|i: int| 0 <= i < comps.len() && (#[trigger] cur[i]) is Some
                implies eligible_match(ts, source, cur[i]->0, comps[i]) by {
                assert(eligible_match(d, source, prev[i]->0, comps[i]));
            }
        }
    }
}

/// A recipe only takes towers that match its components exactly: when every
/// component finds a tower, the tower picked for component `k` is on the
/// field, is neither the source nor an unkept starter, and is a plain gem of
/// that component's kind and grade.
pub proof fn law_components_match_recipe(ts: Seq<FieldTower>, source: u64, comps: Seq<(GemKind, GemGrade)>)
    requires
        all_claimed(assign_components(ts, source, comps)) is Some,
    ensures
        all_claimed(assign_components(ts, source, comps))->0.len() == comps.len(),
        forall|k: int| 0 <= k < comps.len() ==> #[trigger] eligible_match(ts, source,
            all_claimed(assign_components(ts, source, comps))->0[k], comps[k]),
{
    lemma_assign_entries(ts, source, comps);
    let found = assign_components(ts, source, comps);
    let ids = all_claimed(found)->0;
    assert forall|k: int| 0 <= k < comps.len() implies #[trigger] eligible_match(ts, source, ids[k], comps[k]) by {
        assert(found[k] is Some);
        assert(ids[k] == found[k]->0);
    }
}

/// One distinct placed tower (not the source, not an unkept starter) for
/// each component of `recipe`, picked in tower order, if all are present.
pub fn special_component_entities(source: u64, recipe: &SpecialRecipe, field: &Field) -> (ids: Option<Vec<u64>>)
    ensures
        match ids {
            Some(v) => all_claimed(assign_components(field@.towers, source, recipe.components@)) == Some(v@),
            None => all_claimed(assign_components(field@.towers, source, recipe.components@)) is None,
        },
{
    let comps = &recipe.components;
    let mut found: Vec<Option<u64>> = Vec::new();
    let mut j: usize = 0;
    while j < comps.len()
        invariant
            j <= comps@.len(),
            found@ == Seq::new(j as nat, |i: int| None::<u64>),
        decreases comps@.len() - j,
    {
        found.push(None);
        j = j + 1;
        proof {
            assert(found@ =~= Seq::new(j as nat, |i: int| None::<u64>));
        }
    }
    let mut i: usize = 0;
    while i < field.towers.len()
        invariant
            i <= field.towers@.len(),
            found@ == assign_components(field.towers@.subrange(0, i as int), source, comps@),
            found@.len() == comps@.len(),
        decreases field.towers@.len() - i,
    {
        let t = field.towers[i];
        let ghost prev = found@;
        proof {
            assert(field.towers@.subrange(0, i + 1).drop_last() =~= field.towers@.subrange(0, i as int));
            assert(field.towers@.subrange(0, i + 1).last() == t);
        }
        if t.id != source && !t.starter {
            let mut k: usize = 0;
            let mut done = false;
            while k < comps.len() && !done
                invariant
                    k <= comps@.len(),
                    found@.len() == comps@.len(),
                    !done ==> found@ == prev && claim(prev, comps@, t, 0) == claim(prev, comps@, t, k as int),
                    done ==> found@ == claim(prev, comps@, t, 0),
                decreases comps@.len() - k + (if done { 0int } else { 1int }),
            {
                let piece = comps[k];
                if found[k].is_none() && t.tower.is_basic(piece.0, piece.1) {
                    found.set(k, Some(t.id));
                    done = true;
                } else {
                    k = k + 1;
                }
            }
            proof {
                if !done {
                    assert(claim(prev, comps@, t, k as int) == prev);
                }
            }
        }
        i = i + 1;
    }
    proof {
        assert(field.towers@.subrange(0, field.towers@.len() as int) =~= field.towers@);
    }
    let mut picked: Vec<u64> = Vec::new();
    let mut k: usize = 0;
    while k < found.len()
        invariant
            comps@ == recipe.components@,
            found@ == assign_components(field@.towers, source, comps@),
            k <= found@.len(),
            picked@.len() == k,
            forall|t: int| 0 <= t < k ==> (#[trigger] found@[t]) is Some && picked@[t] == found@[t]->0,
        decreases found@.len() - k,
    {
        match found[k] {
            Some(id) => picked.push(id),
            None => {
                proof {
                    assert(found@[k as int] is None);
                    assert(all_claimed(found@) is None);
                }
                return None;
            },
        }
        k = k + 1;
    }
    proof {
        assert(picked@ =~= found@.map_values(|o: Option<u64>| o->0));
    }
    Some(picked)
}


/// Applies `sacrificed` to each id in order, hiding their aura rings.
pub open spec fn sacrifice_all(auras: Seq<u64>, f: FieldView, ids: Seq<u64>) -> (Seq<u64>, FieldView)
    decreases ids.len(),
{
    if ids.len() == 0 {
        (auras, f)
    } else {
        let (a1, f1) = sacrifice_all(auras, f, ids.drop_last());
        (without_aura(a1, ids.last()), sacrificed(f1, ids.last()))
    }
}

pub open spec fn recipe_summary(source_piece: (GemKind, GemGrade), comps: Seq<(GemKind, GemGrade)>) -> Seq<char> {
    join_piece_names(seq![source_piece] + comps)
}

/// Combining a recipe (`result` from `source_piece` and `comps`) whose
/// source is tower `source`: with every component present, the source
/// becomes the special and the components turn into walls.
pub open spec fn combine_outcome(
    g: GameView,
    f: FieldView,
    source: u64,
    result: SpecialGem,
    source_piece: (GemKind, GemGrade),
    comps: Seq<(GemKind, GemGrade)>,
) -> (GameView, FieldView) {
    let name = spec_special_name(result);
    match all_claimed(assign_components(f.towers, source, comps)) {
        None => (GameView { message: name + " needs "@ + recipe_summary(source_piece, comps) + "."@, upgrade_source: None, ..g }, f),
        Some(ids) => match find_tower(f.towers, source) {
            None => (GameView { message: name + " recipe source is no longer available."@, ..g }, f),
            Some(ai) => {
                let f1 = FieldView {
                    towers: f.towers.update(ai, FieldTower { tower: spec_become_special(f.towers[ai].tower, result), ..f.towers[ai] }),
                    ..f
                };
                let (auras, f2) = sacrifice_all(g.shown_aura_ranges, f1, ids);
                (GameView {
                    shown_aura_ranges: auras,
                    selected_tower: Some(source),
                    selected_offer: None,
                    upgrade_source: None,
                    message: "Combined "@ + recipe_summary(source_piece, comps) + " into "@ + name + "."@,
                    ..g
                }, f2)
            },
        },
    }
}

/// Combines `recipe` into tower `source`; see `combine_outcome`.
pub fn combine_special(game: &mut Game, field: &mut Field, source: u64, recipe: SpecialRecipe)
    requires
        old(game).wf(),
        field_wf(old(field)),
    ensures
        final(game).wf(),
        field_wf(final(field)),
        (final(game)@, final(field)@) == combine_outcome(old(game)@, old(field)@, source, recipe.result, recipe.source, recipe.components@),
{
    let ghost g0 = game@;
    let ghost f0 = field@;
    let name = recipe.result.name();
    let components = match special_component_entities(source, &recipe, field) {
        Some(ids) => ids,
        None => {
            let summary = recipe.ingredient_summary();
            let mut message = String::new();
            push_str(&mut message, name);
            push_str(&mut message, " needs ");
            push_str(&mut message, summary.as_str());
            push_str(&mut message, ".");
            game.message = message;
            game.upgrade_source = None;
            return;
        },
    };
    let ai = match field.tower_index(source) {
        Some(i) => i,
        None => {
            let mut message = String::new();
            push_str(&mut message, name);
            push_str(&mut message, " recipe source is no longer available.");
            game.message = message;
            return;
        },
    };
    let mut t = field.towers[ai];
    t.tower.become_special(recipe.result);
    field.towers.set(ai, t);
    let ghost f1 = field@;
    proof {
        assert(f1.towers =~= f0.towers.update(ai as int, FieldTower { tower: spec_become_special(f0.towers[ai as int].tower, recipe.result), ..f0.towers[ai as int] }));
        assert forall|x: int, y: int| 0 <= x < f1.towers.len() && 0 <= y < f1.towers.len() && x != y
            implies (#[trigger] f1.towers[x]).id != (#[trigger] f1.towers[y]).id by {
            assert(f1.towers[x].id == f0.towers[x].id && f1.towers[y].id == f0.towers[y].id);
        }
        assert forall|x: int| 0 <= x < f1.towers.len() implies (#[trigger] f1.towers[x]).id < f1.next_id by {
            assert(f1.towers[x].id == f0.towers[x].id);
        }
    }
    let ghost a1 = game@.shown_aura_ranges;
    let mut k: usize = 0;
    while k < components.len()
        invariant
            game.wf(),
            field_wf(field),
            k <= components@.len(),
            game@ == (GameView { shown_aura_ranges: game@.shown_aura_ranges, ..g0 }),
            (game@.shown_aura_ranges, field@) == sacrifice_all(a1, f1, components@.subrange(0, k as int)),
        decreases components@.len() - k,
    {
        proof {
            assert(components@.subrange(0, k + 1).drop_last() =~= components@.subrange(0, k as int));
            assert(components@.subrange(0, k + 1).last() == components@[k as int]);
        }
        sacrifice_tower_to_wall(game, field, components[k]);
        k = k + 1;
    }
    proof {
        assert(components@.subrange(0, components@.len() as int) =~= components@);
    }
    game.selected_tower = Some(source);
    game.selected_offer = None;
    game.upgrade_source = None;
    let summary = recipe.ingredient_summary();
    let mut message = String::new();
    push_str(&mut message, "Combined ");
    push_str(&mut message, summary.as_str());
    push_str(&mut message, " into ");
    push_str(&mut message, name);
    push_str(&mut message, ".");
    game.message = message;
}


/// The one-time boost an upgraded special gives nearby towers: bonus and
/// radius (thousandths).
pub open spec fn spec_damage_boost(effect: GemEffect) -> Option<(u32, u32)> {
    match effect {
        GemEffect::DamageBoost { damage_bonus_milli, range_milli } => Some((damage_bonus_milli, range_milli)),
        GemEffect::SlowSplashBoost { damage_bonus_milli, boost_range_milli, .. } => Some((damage_bonus_milli, boost_range_milli)),
        _ => None,
    }
}

/// The damage bonus and radius of a boosting effect.
pub fn special_damage_boost(effect: GemEffect) -> (boost: Option<(u32, u32)>)
    ensures
        boost == spec_damage_boost(effect),
{
    match effect {
        GemEffect::DamageBoost { damage_bonus_milli, range_milli } => Some((damage_bonus_milli, range_milli)),
        GemEffect::SlowSplashBoost { damage_bonus_milli, boost_range_milli, .. } => Some((damage_bonus_milli, boost_range_milli)),
        _ => None,
    }
}

/// Whether cells `p` and `q` lie within `radius` (thousandths of a world
/// unit) of each other, centre to centre; cells are 40 units apart.
pub open spec fn within_radius(p: GridPos, q: GridPos, radius_milli: u32) -> bool {
    let dc = p.col - q.col;
    let dr = p.row - q.row;
    1600 * (dc * dc + dr * dr) * 1_000_000 <= radius_milli * radius_milli
}

pub fn cells_within_radius(p: GridPos, q: GridPos, radius_milli: u32) -> (within: bool)
    ensures
        within == within_radius(p, q, radius_milli),
{
    let dc = p.col as i128 - q.col as i128;
    let dr = p.row as i128 - q.row as i128;
    assert(dc * dc <= 0x1_0000_0000 * 0x1_0000_0000) by (nonlinear_arith)
        requires
            -0x1_0000_0000 <= dc <= 0x1_0000_0000,
    ;
    assert(dr * dr <= 0x1_0000_0000 * 0x1_0000_0000) by (nonlinear_arith)
        requires
            -0x1_0000_0000 <= dr <= 0x1_0000_0000,
    ;
    assert(0 <= dc * dc && 0 <= dr * dr) by (nonlinear_arith);
    let d2 = dc * dc + dr * dr;
    let r = radius_milli as i128;
    assert(r * r <= 0x1_0000_0000 * 0x1_0000_0000) by (nonlinear_arith)
        requires
            0 <= r < 0x1_0000_0000,
    ;
    1600 * d2 * 1_000_000 <= r * r
}

/// Damage with a `bonus` (thousandths) added, saturating.
pub open spec fn boosted_damage(damage: u64, bonus: u32) -> u64 {
    let v = damage * (1000 + bonus) / 1000;
    if v > u64::MAX { u64::MAX } else { v as u64 }
}

/// Damage with the Star Yellow Sapphire bonus taken back out.
pub open spec fn unboosted_damage(damage: u64) -> u64 {
    (damage * 1000 / (1000 + STAR_YELLOW_SAPPHIRE_DAMAGE_BOOST_MILLI)) as u64
}

pub open spec fn ignores_opal(effect: GemEffect) -> bool {
    effect is DamageAura || (effect matches GemEffect::SlowAura { ignores_opals, .. } && ignores_opals)
}

/// Whether tower `t` takes the boost of `next` upgraded at `at`: not the
/// upgraded tower itself, not already boosted by a black opal, not immune
/// to opals, in range, and (when it carries a yellow sapphire boost) only
/// for a Mystic Black Opal, which replaces it.
pub open spec fn boost_applies(t: FieldTower, source: u64, at: GridPos, next: SpecialGem, radius: u32) -> bool {
    &&& t.id != source
    &&& !t.tower.black_opal_boosted
    &&& !ignores_opal(spec_tower_effect(t.tower))
    &&& within_radius(t.pos, at, radius)
    &&& t.tower.yellow_sapphire_boosted ==> next == SpecialGem::MysticBlackOpal
}

pub open spec fn boost_tower(t: FieldTower, next: SpecialGem, bonus: u32) -> FieldTower {
    let base = if t.tower.yellow_sapphire_boosted { unboosted_damage(t.tower.damage_milli) } else { t.tower.damage_milli };
    FieldTower {
        tower: Tower {
            damage_milli: boosted_damage(base, bonus),
            black_opal_boosted: next == SpecialGem::MysticBlackOpal || t.tower.black_opal_boosted,
            yellow_sapphire_boosted: next == SpecialGem::StarYellowSapphire,
            ..t.tower
        },
        ..t
    }
}

pub open spec fn boost_one(t: FieldTower, source: u64, at: GridPos, next: SpecialGem, bonus: u32, radius: u32) -> FieldTower {
    if boost_applies(t, source, at, next, radius) { boost_tower(t, next, bonus) } else { t }
}

/// How many of `ts` take the boost.
pub open spec fn boost_count(ts: Seq<FieldTower>, source: u64, at: GridPos, next: SpecialGem, radius: u32) -> nat
    decreases ts.len(),
{
    if ts.len() == 0 {
        0
    } else {
        boost_count(ts.drop_last(), source, at, next, radius) + (if boost_applies(ts.last(), source, at, next, radius) { 1nat } else { 0nat })
    }
}

pub open spec fn msg_special_upgraded(next: SpecialGem, boosted: nat) -> Seq<char> {
    let plural = if boosted == 1 { ""@ } else { "s"@ };
    if next == SpecialGem::MysticBlackOpal {
        "Upgraded to Mystic Black Opal. Boosted "@ + crate::text::decimal(boosted) + " existing tower"@ + plural + " by 40%."@
    } else if next == SpecialGem::StarYellowSapphire {
        "Upgraded to Star Yellow Sapphire. Boosted "@ + crate::text::decimal(boosted) + " existing tower"@ + plural + " by 5%."@
    } else {
        "Upgraded to "@ + spec_special_name(next) + "."@
    }
}

/// Upgrading special tower `source` for gold: the tower becomes the next
/// special; a boosting special then raises the damage of the towers around
/// it once.
pub open spec fn special_upgrade_outcome(g: GameView, f: FieldView, source: u64, special: SpecialGem) -> (GameView, FieldView) {
    let name = spec_special_name(special);
    match spec_special_upgrade(special) {
        None => (GameView { message: name + " has no further upgrade."@, ..g }, f),
        Some(next) => match spec_special_upgrade_cost(special) {
            None => (GameView { message: name + " has no upgrade cost configured."@, ..g }, f),
            Some(cost) => if g.coins < cost {
                (GameView { message: "Need "@ + crate::text::decimal(cost as nat) + " gold to upgrade "@ + name + "."@, ..g }, f)
            } else {
                match find_tower(f.towers, source) {
                    None => (GameView { selected_tower: None, ..g }, f),
                    Some(ai) => if f.towers[ai].tower.special != Some(special) {
                        (GameView { message: "Only "@ + name + " can upgrade to "@ + spec_special_name(next) + "."@, ..g }, f)
                    } else {
                        let at = f.towers[ai].pos;
                        let t1 = f.towers.update(ai, FieldTower { tower: spec_become_special(f.towers[ai].tower, next), ..f.towers[ai] });
                        let (t2, n) = match spec_damage_boost(spec_special_effect(next)) {
                            Some((bonus, radius)) => (
                                t1.map_values(|t: FieldTower| boost_one(t, source, at, next, bonus, radius)),
                                boost_count(t1, source, at, next, radius),
                            ),
                            None => (t1, 0nat),
                        };
                        (GameView {
                            coins: (g.coins - cost) as u32,
                            selected_tower: Some(source),
                            selected_offer: None,
                            upgrade_source: None,
                            message: msg_special_upgraded(next, n),
                            ..g
                        }, FieldView { towers: t2, ..f })
                    },
                }
            },
        },
    }
}

/// Special boosts never stack: through any special upgrade, every other
/// tower that already carries a Mystic Black Opal boost stays exactly as it
/// was; one that carries a Star Yellow Sapphire boost either stays as it was
/// or trades it for the opal boost; and a tower that changes comes out
/// marked with the boost it took, so a later upgrade passes it by.
pub proof fn law_special_boosts_never_stack(g: GameView, f: FieldView, source: u64, special: SpecialGem, i: int)
    requires
        0 <= i < f.towers.len(),
        f.towers[i].id != source,
    ensures
        ({
            let after = special_upgrade_outcome(g, f, source, special).1.towers;
            &&& after.len() == f.towers.len()
            &&& f.towers[i].tower.black_opal_boosted ==> after[i] == f.towers[i]
            &&& f.towers[i].tower.yellow_sapphire_boosted ==> after[i] == f.towers[i]
                || (after[i].tower.black_opal_boosted && !after[i].tower.yellow_sapphire_boosted)
            &&& after[i] != f.towers[i] ==> after[i].tower.black_opal_boosted || after[i].tower.yellow_sapphire_boosted
        }),
{
    if let Some(next) = spec_special_upgrade(special) {
        if let Some(cost) = spec_special_upgrade_cost(special) {
            if g.coins >= cost {
                if let Some(ai) = find_tower(f.towers, source) {
                    if f.towers[ai].tower.special == Some(special) {
                        assert(ai != i);
                        let t1 = f.towers.update(ai, FieldTower { tower: spec_become_special(f.towers[ai].tower, next), ..f.towers[ai] });
                        assert(t1[i] == f.towers[i]);
                    }
                }
            }
        }
    }
}

fn boost_tower_exec(t: FieldTower, next: SpecialGem, bonus: u32) -> (b: FieldTower)
    ensures
        b == boost_tower(t, next, bonus),
{
    let mut tower = t.tower;
    let mut damage = tower.damage_milli;
    if tower.yellow_sapphire_boosted {
        let d = damage as u128;
        assert(d * 1000 / 1050 <= d) by (nonlinear_arith)
            requires
                d >= 0,
        ;
        damage = (d * 1000 / (1000 + STAR_YELLOW_SAPPHIRE_DAMAGE_BOOST_MILLI as u128)) as u64;
        tower.yellow_sapphire_boosted = false;
    }
    let d = damage as u128;
    let factor = 1000 + bonus as u128;
    assert(d * factor <= 0x1_0000_0000_0000_0000 * 0x2_0000_0000) by (nonlinear_arith)
        requires
            0 <= d <= 0x1_0000_0000_0000_0000,
            0 <= factor <= 0x2_0000_0000,
    ;
    let scaled = d * factor / 1000;
    tower.damage_milli = if scaled > u64::MAX as u128 { u64::MAX } else { scaled as u64 };
    proof {
        let base = if t.tower.yellow_sapphire_boosted { unboosted_damage(t.tower.damage_milli) } else { t.tower.damage_milli };
        assert(damage == base);
        assert(scaled == base * (1000 + bonus) / 1000);
        assert(tower.damage_milli == boosted_damage(base, bonus));
    }
    if next == SpecialGem::MysticBlackOpal {
        tower.black_opal_boosted = true;
    } else if next == SpecialGem::StarYellowSapphire {
        tower.yellow_sapphire_boosted = true;
    }
    FieldTower { tower, ..t }
}

/// Upgrades special tower `source`; see `special_upgrade_outcome`.
pub fn upgrade_special(game: &mut Game, field: &mut Field, source: u64, special: SpecialGem)
    requires
        old(game).wf(),
        field_wf(old(field)),
    ensures
        final(game).wf(),
        field_wf(final(field)),
        (final(game)@, final(field)@) == special_upgrade_outcome(old(game)@, old(field)@, source, special),
{
    let ghost g0 = game@;
    let ghost f0 = field@;
    let name = special.name();
    let next = match special.upgrade() {
        Some(n) => n,
        None => {
            let mut message = String::new();
            push_str(&mut message, name);
            push_str(&mut message, " has no further upgrade.");
            game.message = message;
            return;
        },
    };
    let cost = match special.upgrade_cost() {
        Some(c) => c,
        None => {
            let mut message = String::new();
            push_str(&mut message, name);
            push_str(&mut message, " has no upgrade cost configured.");
            game.message = message;
            return;
        },
    };
    if game.coins < cost {
        let mut message = String::new();
        push_str(&mut message, "Need ");
        push_decimal(&mut message, cost as u64);
        push_str(&mut message, " gold to upgrade ");
        push_str(&mut message, name);
        push_str(&mut message, ".");
        game.message = message;
        return;
    }
    let ai = match field.tower_index(source) {
        Some(i) => i,
        None => {
            game.selected_tower = None;
            return;
        },
    };
    let mut t = field.towers[ai];
    if t.tower.special != Some(special) {
        let mut message = String::new();
        push_str(&mut message, "Only ");
        push_str(&mut message, name);
        push_str(&mut message, " can upgrade to ");
        push_str(&mut message, next.name());
        push_str(&mut message, ".");
        game.message = message;
        return;
    }
    game.coins = game.coins - cost;
    let at = t.pos;
    t.tower.become_special(next);
    field.towers.set(ai, t);
    let ghost t1 = field.towers@;
    proof {
        assert(t1 =~= f0.towers.update(ai as int, FieldTower { tower: spec_become_special(f0.towers[ai as int].tower, next), ..f0.towers[ai as int] }));
    }
    let mut boosted: u64 = 0;
    match special_damage_boost(next.effect()) {
        Some((bonus, radius)) => {
            let mut i: usize = 0;
            while i < field.towers.len()
                invariant
                    field.towers@.len() == t1.len(),
                    i <= t1.len(),
                    field.board == old(field).board,
                    field.next_id == old(field).next_id,
                    boosted == boost_count(t1.subrange(0, i as int), source, at, next, radius),
                    boosted <= i,
                    forall|k: int| 0 <= k < i ==> (#[trigger] field.towers@[k]) == boost_one(t1[k], source, at, next, bonus, radius),
                    forall|k: int| i <= k < t1.len() ==> (#[trigger] field.towers@[k]) == t1[k],
                decreases t1.len() - i,
            {
                let other = field.towers[i];
                proof {
                    assert(t1.subrange(0, i + 1).drop_last() =~= t1.subrange(0, i as int));
                    assert(t1.subrange(0, i + 1).last() == t1[i as int]);
                }
                let applies = other.id != source && !other.tower.black_opal_boosted
                    && !other.tower.effect().ignores_opal_effects()
                    && cells_within_radius(other.pos, at, radius)
                    && (!other.tower.yellow_sapphire_boosted || next == SpecialGem::MysticBlackOpal);
                if applies {
                    field.towers.set(i, boost_tower_exec(other, next, bonus));
                    boosted = boosted + 1;
                }
                i = i + 1;
            }
            proof {
                assert(t1.subrange(0, t1.len() as int) =~= t1);
                assert(field.towers@ =~= t1.map_values(|t: FieldTower| boost_one(t, source, at, next, bonus, radius)));
            }
        },
        None => {},
    }
    proof {
        let f2 = field@;
        assert forall|x: int, y: int| 0 <= x < f2.towers.len() && 0 <= y < f2.towers.len() && x != y
            implies (#[trigger] f2.towers[x]).id != (#[trigger] f2.towers[y]).id by {
            assert(f2.towers[x].id == f0.towers[x].id && f2.towers[y].id == f0.towers[y].id);
        }
        assert forall|x: int| 0 <= x < f2.towers.len() implies (#[trigger] f2.towers[x]).id < f2.next_id by {
            assert(f2.towers[x].id == f0.towers[x].id);
        }
    }
    game.selected_tower = Some(source);
    game.selected_offer = None;
    game.upgrade_source = None;
    let mut message = String::new();
    if next == SpecialGem::MysticBlackOpal {
        push_str(&mut message, "Upgraded to Mystic Black Opal. Boosted ");
        push_decimal(&mut message, boosted);
        push_str(&mut message, " existing tower");
        if boosted != 1 {
            push_str(&mut message, "s");
        }
        push_str(&mut message, " by 40%.");
    } else if next == SpecialGem::StarYellowSapphire {
        push_str(&mut message, "Upgraded to Star Yellow Sapphire. Boosted ");
        push_decimal(&mut message, boosted);
        push_str(&mut message, " existing tower");
        if boosted != 1 {
            push_str(&mut message, "s");
        }
        push_str(&mut message, " by 5%.");
    } else {
        push_str(&mut message, "Upgraded to ");
        push_str(&mut message, next.name());
        push_str(&mut message, ".");
    }
    proof {
        reveal_strlit("");
        assert(message@ == msg_special_upgraded(next, boosted as nat));
    }
    game.message = message;
}


/// The table recipe whose source is this gem and grade.
pub open spec fn table_recipe(gem: GemKind, grade: GemGrade) -> (SpecialGem, (GemKind, GemGrade), Seq<(GemKind, GemGrade)>) {
    recipe_table()[choose|i: int| 0 <= i < recipe_table().len() && (#[trigger] recipe_table()[i]).1 == (gem, grade)]
}

/// What the action button does to the selected tower: upgrade its special,
/// combine its recipe, or start a duplicate upgrade.
pub open spec fn tower_action_outcome(g: GameView, f: FieldView) -> (GameView, FieldView) {
    match g.selected_tower {
        None => (g, f),
        Some(source) => match find_tower(f.towers, source) {
            None => (GameView { selected_tower: None, ..g }, f),
            Some(i) => {
                let t = f.towers[i].tower;
                if action_kind(t) == 2 {
                    special_upgrade_outcome(g, f, source, t.special->0)
                } else if action_kind(t) == 1 {
                    let r = table_recipe(t.gem, t.grade);
                    combine_outcome(g, f, source, r.0, r.1, r.2)
                } else {
                    (upgrade_selection(g, f), f)
                }
            },
        },
    }
}

/// Runs the action button for the selected tower; see `tower_action_outcome`.
pub fn handle_selected_tower_action(game: &mut Game, field: &mut Field)
    requires
        old(game).wf(),
        field_wf(old(field)),
    ensures
        final(game).wf(),
        field_wf(final(field)),
        (final(game)@, final(field)@) == tower_action_outcome(old(game)@, old(field)@),
{
    let ghost g0 = game@;
    let ghost f0 = field@;
    let source = match game.selected_tower {
        Some(s) => s,
        None => return,
    };
    let action = match selected_tower_action(source, game, field) {
        Some(a) => a,
        None => return,
    };
    match action {
        SelectedTowerAction::RegularUpgrade => {
            begin_upgrade_selection(game, field);
        },
        SelectedTowerAction::CombineSpecial(recipe) => {
            proof {
                let i = find_tower(f0.towers, source)->0;
                let t = f0.towers[i].tower;
                law_recipe_sources_distinct();
                let k = choose|k: int| is_table_recipe(recipe, k);
                let c = choose|c: int| 0 <= c < recipe_table().len() && (#[trigger] recipe_table()[c]).1 == (t.gem, t.grade);
                assert(recipe_table()[k].1 == (t.gem, t.grade));
                assert(c == k);
            }
            combine_special(game, field, source, recipe);
        },
        SelectedTowerAction::UpgradeSpecial(special) => {
            upgrade_special(game, field, source, special);
        },
    }
}

pub open spec fn msg_selected(t: Tower) -> Seq<char> {
    "Selected "@ + spec_display_name(t) + "."@
}

pub open spec fn msg_keep_prompt(gem: GemKind) -> Seq<char> {
    "Keep the "@ + spec_gem_name(gem) + " starter? Press Confirm (or Ctrl+click a starter to keep instantly)."@
}

pub open spec fn msg_inspect_starter(n: nat) -> Seq<char> {
    "Placed starter "@ + crate::text::decimal(n) + " of 5. Place the rest before choosing one."@
}

/// Tower `id` selected.
pub open spec fn selection(g: GameView, f: FieldView, id: u64) -> GameView {
    match find_tower(f.towers, id) {
        None => g,
        Some(i) => GameView {
            selected_tower: Some(id),
            selected_offer: None,
            upgrade_source: None,
            keep_candidate: None,
            message: msg_selected(f.towers[i].tower),
            ..g
        },
    }
}

/// Starter `id` picked as the one to keep, awaiting confirmation.
pub open spec fn keep_selection(g: GameView, f: FieldView, id: u64) -> GameView {
    match find_tower(f.towers, id) {
        None => g,
        Some(i) => GameView {
            keep_candidate: Some(id),
            selected_tower: None,
            selected_offer: None,
            upgrade_source: None,
            message: msg_keep_prompt(f.towers[i].tower.gem),
            ..g
        },
    }
}

/// Starter `id` shown while the rest are still being placed.
pub open spec fn starter_inspection(g: GameView, f: FieldView, id: u64) -> GameView {
    match find_tower(f.towers, id) {
        None => g,
        Some(i) => GameView {
            selected_tower: Some(id),
            selected_offer: None,
            upgrade_source: None,
            message: msg_inspect_starter(count_placed(g.placed_starters) as nat),
            ..g
        },
    }
}

/// Selects tower `id` (if it exists), dropping the offer, upgrade and keep
/// selections.
pub fn select_tower(game: &mut Game, field: &Field, id: u64)
    requires
        old(game).wf(),
        field_wf(field),
    ensures
        final(game).wf(),
        final(game)@ == selection(old(game)@, field@, id),
{
    let i = match field.tower_index(id) {
        Some(i) => i,
        None => return,
    };
    game.selected_tower = Some(id);
    game.selected_offer = None;
    game.upgrade_source = None;
    game.keep_candidate = None;
    let name = field.towers[i].tower.display_name();
    let mut message = String::new();
    push_str(&mut message, "Selected ");
    push_str(&mut message, name.as_str());
    push_str(&mut message, ".");
    game.message = message;
}

/// Picks (but does not keep) starter `id` once all five are placed.
pub fn select_keep_candidate(game: &mut Game, field: &Field, id: u64)
    requires
        old(game).wf(),
        field_wf(field),
    ensures
        final(game).wf(),
        final(game)@ == keep_selection(old(game)@, field@, id),
{
    let i = match field.tower_index(id) {
        Some(i) => i,
        None => return,
    };
    let gem = field.towers[i].tower.gem;
    game.keep_candidate = Some(id);
    game.selected_tower = None;
    game.selected_offer = None;
    game.upgrade_source = None;
    let mut message = String::new();
    push_str(&mut message, "Keep the ");
    push_str(&mut message, gem.name());
    push_str(&mut message, " starter? Press Confirm (or Ctrl+click a starter to keep instantly).");
    game.message = message;
}

/// Shows starter `id` while the others are still being placed.
pub fn inspect_starter_candidate(game: &mut Game, field: &Field, id: u64)
    requires
        old(game).wf(),
        field_wf(field),
    ensures
        final(game).wf(),
        final(game)@ == starter_inspection(old(game)@, field@, id),
{
    if field.tower_index(id).is_none() {
        return;
    }
    game.selected_tower = Some(id);
    game.selected_offer = None;
    game.upgrade_source = None;
    let placed = game.placed_starter_count();
    proof {
        lemma_count_placed_bound(game.placed_starters@);
    }
    let mut message = String::new();
    push_str(&mut message, "Placed starter ");
    push_decimal(&mut message, placed as u64);
    push_str(&mut message, " of 5. Place the rest before choosing one.");
    game.message = message;
}


/// A released left click on the board: the tower under the cursor, if any,
/// and the cell, if on the board.
#[derive(Clone, Copy, PartialEq, Eq, Structural, Debug)]
pub struct BoardClick {
    pub tower: Option<u64>,
    pub cell: Option<GridPos>,
    pub instant_keep: bool,
}

pub open spec fn all_placed(starters: Seq<Option<u64>>) -> bool {
    forall|i: int| 0 <= i < OFFER_COUNT ==> (#[trigger] starters[i]) is Some
}

pub open spec fn msg_pick_duplicate() -> Seq<char> {
    "Select a matching duplicate tower to sacrifice."@
}

/// What a board click does. On a tower: complete a pending upgrade, pick or
/// keep a starter once all five are placed, inspect a starter, or select
/// the tower. Elsewhere: drop any tower selection, then (while building)
/// place the selected starter on the cell. `new_path` is the route the
/// board takes when the click changes it.
pub open spec fn click_outcome(g: GameView, f: FieldView, click: BoardClick, new_path: Seq<GridPos>) -> (GameView, FieldView) {
    match click.tower {
        Some(id) => {
            let is_starter = find_tower(f.towers, id) matches Some(i) && f.towers[i].starter;
            if g.upgrade_source is Some {
                upgrade_outcome(g, f, id)
            } else if g.phase == Phase::Build && all_placed(g.placed_starters) && is_starter {
                if click.instant_keep { keep_outcome(g, f, id, new_path) } else { (keep_selection(g, f, id), f) }
            } else if g.phase == Phase::Build && is_starter {
                (starter_inspection(g, f, id), f)
            } else {
                (selection(g, f, id), f)
            }
        },
        None => {
            let had = g.selected_tower is Some || g.upgrade_source is Some || g.keep_candidate is Some;
            let g1 = if had { GameView { selected_tower: None, upgrade_source: None, keep_candidate: None, ..g } } else { g };
            if g1.phase != Phase::Build {
                (g1, f)
            } else {
                match click.cell {
                    None => (GameView { selected_offer: None, ..g1 }, f),
                    Some(pos) => if g1.upgrade_source is Some {
                        (GameView { message: msg_pick_duplicate(), ..g1 }, f)
                    } else if had {
                        (g1, f)
                    } else {
                        let r = placement(g1, f, pos, new_path);
                        (r.0, r.1)
                    },
                }
            }
        },
    }
}

/// Board clicks count during an unpaused run.
pub open spec fn click_active(g: GameView) -> bool {
    g.screen == AppScreen::Playing && !g.paused
}

/// The click lands on an empty cell while building with nothing selected:
/// it places the selected starter there.
pub open spec fn click_places(g: GameView, click: BoardClick) -> bool {
    &&& click.tower is None
    &&& click.cell is Some
    &&& g.phase == Phase::Build
    &&& g.selected_tower is None
    &&& g.upgrade_source is None
    &&& g.keep_candidate is None
}

/// The click keeps a starter instantly.
pub open spec fn click_keeps(g: GameView, f: FieldView, click: BoardClick) -> bool {
    &&& click.tower is Some
    &&& click.instant_keep
    &&& g.upgrade_source is None
    &&& g.phase == Phase::Build
    &&& all_placed(g.placed_starters)
    &&& find_tower(f.towers, click.tower->0) matches Some(i) && f.towers[i].starter
}

/// Handles a board click; see `click_outcome`.
pub fn place_or_select(game: &mut Game, field: &mut Field, click: BoardClick)
    requires
        old(game).wf(),
        field_wf(old(field)),
        click.cell matches Some(p) ==> spec_in_bounds(p),
        old(field).next_id < u64::MAX,
    ensures
        final(game).wf(),
        field_wf(final(field)),
        !click_active(old(game)@) ==> final(game)@ == old(game)@ && final(field)@ == old(field)@,
        click_active(old(game)@) ==> (final(game)@, final(field)@) == click_outcome(old(game)@, old(field)@, click, final(field)@.path),
        click_active(old(game)@) && click_places(old(game)@, click)
            && placement(old(game)@, old(field)@, click.cell->0, final(field)@.path).2 is Some
            ==> planned_route(final(field)@.path, final(field)@.checkpoints, occupied(final(field)@)),
        click_active(old(game)@) && click_keeps(old(game)@, old(field)@, click) ==> (
            route_exists(final(field)@.checkpoints, occupied(final(field)@))
                ==> planned_route(final(field)@.path, final(field)@.checkpoints, occupied(final(field)@)))
            && (!route_exists(final(field)@.checkpoints, occupied(final(field)@)) ==> final(field)@.path == old(field)@.path),
{
    let ghost g0 = game@;
    let ghost f0 = field@;
    if game.screen != AppScreen::Playing || game.paused {
        return;
    }
    if let Some(id) = click.tower {
        let is_starter = match field.tower_index(id) {
            Some(i) => field.towers[i].starter,
            None => false,
        };
        if game.upgrade_source.is_some() {
            complete_upgrade(game, field, id);
        } else if game.phase == Phase::Build && game.all_starters_placed() && is_starter {
            if click.instant_keep {
                keep_starter(game, field, id);
            } else {
                select_keep_candidate(game, field, id);
            }
        } else if game.phase == Phase::Build && is_starter {
            inspect_starter_candidate(game, field, id);
        } else {
            select_tower(game, field, id);
        }
        proof {
            if find_tower(f0.towers, id) is None || !(g0.upgrade_source is None && g0.phase == Phase::Build && all_placed(g0.placed_starters) && is_starter && click.instant_keep) {
                if g0.upgrade_source is None {
                    assert(field@ == f0);
                }
            }
        }
        return;
    }
    let had = game.selected_tower.is_some() || game.upgrade_source.is_some() || game.keep_candidate.is_some();
    if had {
        game.selected_tower = None;
        game.upgrade_source = None;
        game.keep_candidate = None;
    }
    if game.phase != Phase::Build {
        return;
    }
    let pos = match click.cell {
        Some(p) => p,
        None => {
            game.selected_offer = None;
            return;
        },
    };
    if game.upgrade_source.is_some() {
        set_message(game, "Select a matching duplicate tower to sacrifice.");
        return;
    }
    if had {
        return;
    }
    place_tower(game, field, pos);
}

} // verus!
