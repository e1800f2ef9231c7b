use vstd::prelude::*;

use crate::field::{Field, FieldTower, FieldView, field_wf, find_tower, is_basic, table_recipe, upgrade_match, upgrade_match_exists};
use crate::game::{AppScreen, Game, GameView, Phase, spec_mode_name};
use crate::gem::{GemGrade, GemKind, spec_grade_name, spec_next_grade};
use crate::grid::OFFER_COUNT;
use crate::recipe::{SpecialRecipe, is_table_recipe, law_recipe_sources_distinct, recipe_table, special_recipe_for_source, spec_recipe_result};
use crate::special::{spec_special_upgrade, spec_special_upgrade_cost};
use crate::play::shown_tenths;
use crate::text::{decimal, digit, digit_char, push_char, push_decimal, push_str};

verus! {

/// Every component of a recipe has a kept basic tower, other than the
/// source, that matches it (one tower may stand for several components).
pub open spec fn recipe_ready(ts: Seq<FieldTower>, source: u64, comps: Seq<(GemKind, GemGrade)>) -> bool {
    forall|k: int| 0 <= k < comps.len() ==> upgrade_match(ts, source, (#[trigger] comps[k]).0, comps[k].1)
}

/// Whether every component of `recipe` has a matching kept tower besides
/// `source`.
pub fn special_recipe_is_available(source: u64, recipe: &SpecialRecipe, field: &Field) -> (ready: bool)
    ensures
        ready == recipe_ready(field@.towers, source, recipe.components@),
{
    let comps = &recipe.components;
    let mut k: usize = 0;
    while k < comps.len()
        invariant
            k <= comps@.len(),
            comps@ == recipe.components@,
            forall|t: int| 0 <= t < k ==> upgrade_match(field@.towers, source, (#[trigger] comps@[t]).0, comps@[t].1),
        decreases comps@.len() - k,
    {
        let (gem, grade) = comps[k];
        if !upgrade_match_exists(field, source, gem, grade) {
            assert(!upgrade_match(field@.towers, source, comps@[k as int].0, comps@[k as int].1));
            assert(!recipe_ready(field@.towers, source, recipe.components@));
            return false;
        }
        k = k + 1;
    }
    true
}

/// Whether the selected tower's action can go ahead now: a special with a
/// further upgrade needs its gold, a recipe source needs its components,
/// and any other basic tower below Perfect needs a kept duplicate.
pub open spec fn upgrade_ready(g: GameView, f: FieldView) -> bool {
    match g.selected_tower {
        None => false,
        Some(source) => match find_tower(f.towers, source) {
            None => false,
            Some(i) => {
                let t = f.towers[i].tower;
                if t.special matches Some(s) && spec_special_upgrade(s) is Some {
                    match spec_special_upgrade_cost(t.special->0) {
                        Some(cost) => g.coins >= cost,
                        None => false,
                    }
                } else if spec_recipe_result(t.gem, t.grade) is Some {
                    recipe_ready(f.towers, source, table_recipe(t.gem, t.grade).2)
                } else {
                    t.special is None && spec_next_grade(t.grade) is Some && upgrade_match(f.towers, source, t.gem, t.grade)
                }
            },
        },
    }
}

/// Whether the action button is live for the selected tower; see
/// `upgrade_ready`.
pub fn upgrade_is_available(game: &Game, field: &Field) -> (ready: bool)
    requires
        field_wf(field),
    ensures
        ready == upgrade_ready(game@, field@),
{
    let source = match game.selected_tower {
        Some(s) => s,
        None => return false,
    };
    let i = match field.tower_index(source) {
        Some(i) => i,
        None => return false,
    };
    let t = field.towers[i].tower;
    if let Some(special) = t.special {
        if special.upgrade().is_some() {
            return match special.upgrade_cost() {
                Some(cost) => game.coins >= cost,
                None => false,
            };
        }
    }
    match special_recipe_for_source(t.gem, t.grade) {
        Some(recipe) => {
            proof {
                law_recipe_sources_distinct();
                let k = choose|k: int| is_table_recipe(recipe, k);
                let c = choose|c: int| 0 <= c < recipe_table().len() && (#[trigger] recipe_table()[c]).1 == (t.gem, t.grade);
                assert(recipe_table()[k].1 == (t.gem, t.grade));
                assert(c == k);
            }
            special_recipe_is_available(source, &recipe, field)
        },
        None => t.can_regular_upgrade() && upgrade_match_exists(field, source, t.gem, t.grade),
    }
}

/// The range button reads "Hide Range" while the selected tower's ring is
/// shown.
pub open spec fn spec_range_button_label(g: GameView) -> Seq<char> {
    if g.selected_tower matches Some(t) && g.shown_aura_ranges.contains(t) { "Hide Range"@ } else { "Show Range"@ }
}

pub fn range_button_label(game: &Game) -> (label: &'static str)
    ensures
        label@ == spec_range_button_label(game@),
{
    let shown = match game.selected_tower {
        Some(t) => {
            let mut found = false;
            let mut k: usize = 0;
            while k < game.shown_aura_ranges.len()
                invariant
                    k <= game.shown_aura_ranges@.len(),
                    found == exists|j: int| 0 <= j < k && game.shown_aura_ranges@[j] == t,
                decreases game.shown_aura_ranges@.len() - k,
            {
                if game.shown_aura_ranges[k] == t {
                    found = true;
                }
                k = k + 1;
            }
            found
        },
        None => false,
    };
    if shown { "Hide Range" } else { "Show Range" }
}

/// "Chipped > Flawed > Regular > Cut > Perfect".
pub open spec fn spec_grade_ladder_text() -> Seq<char> {
    spec_grade_name(GemGrade::Chipped) + " > "@ + spec_grade_name(GemGrade::Flawed) + " > "@
        + spec_grade_name(GemGrade::Regular) + " > "@ + spec_grade_name(GemGrade::Cut) + " > "@
        + spec_grade_name(GemGrade::Perfect)
}

/// The grade names, weakest first, joined by " > ".
pub fn grade_ladder_text() -> (text: String)
    ensures
        text@ == spec_grade_ladder_text(),
{
    let mut s = String::new();
    push_str(&mut s, GemGrade::Chipped.name());
    push_str(&mut s, " > ");
    push_str(&mut s, GemGrade::Flawed.name());
    push_str(&mut s, " > ");
    push_str(&mut s, GemGrade::Regular.name());
    push_str(&mut s, " > ");
    push_str(&mut s, GemGrade::Cut.name());
    push_str(&mut s, " > ");
    push_str(&mut s, GemGrade::Perfect.name());
    s
}

/// Lives as shown: never below zero.
pub open spec fn shown_lives(lives: i32) -> nat {
    if lives < 0 { 0 } else { lives as nat }
}

/// "Wave R        Lives L        Gold G".
pub open spec fn spec_top_bar_text(g: GameView) -> Seq<char> {
    "Wave "@ + decimal(g.round as nat) + "        Lives "@ + decimal(shown_lives(g.lives)) + "        Gold "@ + decimal(g.coins as nat)
}

pub fn top_bar_text(game: &Game) -> (text: String)
    ensures
        text@ == spec_top_bar_text(game@),
{
    let mut s = String::new();
    push_str(&mut s, "Wave ");
    push_decimal(&mut s, game.round as u64);
    push_str(&mut s, "        Lives ");
    let lives: u64 = if game.lives < 0 { 0 } else { game.lives as u64 };
    push_decimal(&mut s, lives);
    push_str(&mut s, "        Gold ");
    push_decimal(&mut s, game.coins as u64);
    s
}

/// The speed button's label, "1x" to "3x".
pub fn speed_text(speed: u8) -> (text: String)
    ensures
        text@ == decimal(speed as nat) + "x"@,
{
    let mut s = String::new();
    push_decimal(&mut s, speed as u64);
    push_str(&mut s, "x");
    s
}

pub open spec fn spec_phase_name(phase: Phase) -> Seq<char> {
    match phase {
        Phase::Build => "Build"@,
        Phase::Countdown => "Countdown"@,
        Phase::Wave => "Wave"@,
    }
}

/// The hint under the HUD message: upgrade mode first, then what building
/// the starters asks for.
pub open spec fn spec_hud_prompt(g: GameView) -> Seq<char> {
    if g.upgrade_source is Some {
        "      Upgrade: click a matching duplicate to sacrifice"@
    } else if g.phase == Phase::Build && g.keep_candidate is Some {
        "      Press Confirm to keep, or pick another starter"@
    } else if g.phase == Phase::Build && (forall|i: int| 0 <= i < OFFER_COUNT ==> (#[trigger] g.placed_starters[i]) is Some) {
        "      Click a starter to select, then Confirm (Ctrl+click = instant)"@
    } else if g.phase == Phase::Build {
        "      Place all five starters"@
    } else {
        ""@
    }
}

pub fn hud_prompt(game: &Game) -> (prompt: &'static str)
    requires
        game.wf(),
    ensures
        prompt@ == spec_hud_prompt(game@),
{
    if game.upgrade_source.is_some() {
        return "      Upgrade: click a matching duplicate to sacrifice";
    }
    if game.phase == Phase::Build {
        if game.keep_candidate.is_some() {
            return "      Press Confirm to keep, or pick another starter";
        }
        if game.all_starters_placed() {
            return "      Click a starter to select, then Confirm (Ctrl+click = instant)";
        }
        assert(!(forall|i: int| 0 <= i < OFFER_COUNT ==> (#[trigger] game@.placed_starters[i]) is Some));
        assert(spec_hud_prompt(game@) == "      Place all five starters"@);
        return "      Place all five starters";
    }
    ""
}

/// The countdown part of the HUD: the time left, in seconds to one decimal.
pub open spec fn spec_hud_countdown(g: GameView) -> Seq<char> {
    let remaining_tenths = shown_tenths(g.countdown_milli);
    if g.phase == Phase::Countdown {
        "      Starts in: "@ + decimal(remaining_tenths / 10) + "."@ + seq![digit_char((remaining_tenths % 10) as int)]
    } else {
        Seq::empty()
    }
}

fn hud_countdown(game: &Game) -> (text: String)
    ensures
        text@ == spec_hud_countdown(game@),
{
    let remaining_tenths: u64 = (game.countdown_milli as u64 + 50) / 100;
    let mut s = String::new();
    if game.phase == Phase::Countdown {
        push_str(&mut s, "      Starts in: ");
        push_decimal(&mut s, remaining_tenths / 10);
        push_str(&mut s, ".");
        push_char(&mut s, digit(remaining_tenths % 10));
        proof {
            assert(s@ =~= spec_hud_countdown(game@));
        }
    } else {
        proof {
            assert(s@ =~= spec_hud_countdown(game@));
        }
    }
    s
}

/// The HUD: mode, round and phase (with the countdown), lives, gold and
/// route length, the message with its prompt, and the grade ladder.
pub open spec fn spec_hud_text(g: GameView, path_len: nat) -> Seq<char> {
    "Mode: "@ + spec_mode_name(g.mode) + "      Round: "@ + decimal(g.round as nat) + "      Phase: "@
        + spec_phase_name(g.phase) + spec_hud_countdown(g) + "\nLives: "@
        + decimal(shown_lives(g.lives)) + "      Gold: "@ + decimal(g.coins as nat) + "      Path: "@
        + decimal(path_len) + "\n"@ + g.message + spec_hud_prompt(g) + "\nGrades: "@ + spec_grade_ladder_text()
}

pub fn hud_text(game: &Game, path_len: usize) -> (text: String)
    requires
        game.wf(),
    ensures
        text@ == spec_hud_text(game@, path_len as nat),
{
    let mut s = String::new();
    push_str(&mut s, "Mode: ");
    push_str(&mut s, game.mode.name());
    push_str(&mut s, "      Round: ");
    push_decimal(&mut s, game.round as u64);
    push_str(&mut s, "      Phase: ");
    let phase = match game.phase {
        Phase::Build => "Build",
        Phase::Countdown => "Countdown",
        Phase::Wave => "Wave",
    };
    push_str(&mut s, phase);
    let countdown = hud_countdown(game);
    push_str(&mut s, countdown.as_str());
    push_str(&mut s, "\nLives: ");
    let lives: u64 = if game.lives < 0 { 0 } else { game.lives as u64 };
    push_decimal(&mut s, lives);
    push_str(&mut s, "      Gold: ");
    push_decimal(&mut s, game.coins as u64);
    push_str(&mut s, "      Path: ");
    push_decimal(&mut s, path_len as u64);
    push_str(&mut s, "\n");
    push_str(&mut s, game.message.as_str());
    push_str(&mut s, hud_prompt(game));
    push_str(&mut s, "\nGrades: ");
    let ladder = grade_ladder_text();
    push_str(&mut s, ladder.as_str());
    proof {
        assert(s@ =~= spec_hud_text(game@, path_len as nat));
    }
    s
}

/// The halo drawn behind a tower.
#[derive(Clone, Copy, PartialEq, Eq, Structural, Debug)]
pub enum Halo {
    /// A tower that can be sacrificed for the pending upgrade.
    Sacrifice,
    /// The starter chosen, not yet confirmed, to keep.
    KeepCandidate,
    /// The tower the stat panel describes.
    Inspected,
}

/// A tower that can feed an upgrade of `source` at this gem and grade.
pub open spec fn eligible(t: FieldTower, source: u64, gem: GemKind, grade: GemGrade) -> bool {
    t.id != source && !t.starter && is_basic(t.tower, gem, grade)
}

/// The ids of the eligible towers, in tower order.
pub open spec fn eligible_ids(ts: Seq<FieldTower>, source: u64, gem: GemKind, grade: GemGrade) -> Seq<u64>
    decreases ts.len(),
{
    if ts.len() == 0 {
        Seq::empty()
    } else {
        let rest = eligible_ids(ts.drop_last(), source, gem, grade);
        if eligible(ts.last(), source, gem, grade) { rest.push(ts.last().id) } else { rest }
    }
}

pub open spec fn sacrifice_halos(ids: Seq<u64>) -> Seq<(u64, Halo)> {
    ids.map_values(|id: u64| (id, Halo::Sacrifice))
}

/// The halos for the current frame: during an upgrade every eligible
/// sacrifice; otherwise the keep candidate, or else the selected tower.
pub open spec fn spec_highlights(g: GameView, f: FieldView) -> Seq<(u64, Halo)> {
    if g.screen != AppScreen::Playing {
        Seq::empty()
    } else if g.upgrade_source is Some {
        match find_tower(f.towers, g.upgrade_source->0) {
            None => Seq::empty(),
            Some(i) => sacrifice_halos(eligible_ids(f.towers, g.upgrade_source->0, f.towers[i].tower.gem, f.towers[i].tower.grade)),
        }
    } else if g.keep_candidate is Some && find_tower(f.towers, g.keep_candidate->0) is Some {
        seq![(g.keep_candidate->0, Halo::KeepCandidate)]
    } else if g.selected_tower is Some && find_tower(f.towers, g.selected_tower->0) is Some {
        seq![(g.selected_tower->0, Halo::Inspected)]
    } else {
        Seq::empty()
    }
}

/// The halos to draw; see `spec_highlights`.
pub fn upgrade_highlights(game: &Game, field: &Field) -> (halos: Vec<(u64, Halo)>)
    requires
        field_wf(field),
    ensures
        halos@ == spec_highlights(game@, field@),
{
    let mut halos: Vec<(u64, Halo)> = Vec::new();
    if game.screen != AppScreen::Playing {
        return halos;
    }
    if let Some(source) = game.upgrade_source {
        let si = match field.tower_index(source) {
            Some(i) => i,
            None => return halos,
        };
        let gem = field.towers[si].tower.gem;
        let grade = field.towers[si].tower.grade;
        let mut i: usize = 0;
        while i < field.towers.len()
            invariant
                i <= field.towers@.len(),
                halos@ == sacrifice_halos(eligible_ids(field.towers@.subrange(0, i as int), source, gem, grade)),
            decreases field.towers@.len() - i,
        {
            let t = field.towers[i];
            let ghost before = field.towers@.subrange(0, i as int);
            let ghost after = field.towers@.subrange(0, i + 1);
            proof {
                assert(after.drop_last() =~= before);
                assert(after.last() == t);
            }
            if t.id != source && !t.starter && t.tower.is_basic(gem, grade) {
                halos.push((t.id, Halo::Sacrifice));
                proof {
                    assert(halos@ =~= sacrifice_halos(eligible_ids(after, source, gem, grade)));
                }
            }
            i = i + 1;
        }
        proof {
            assert(field.towers@.subrange(0, field.towers@.len() as int) =~= field.towers@);
        }
        return halos;
    }
    if let Some(candidate) = game.keep_candidate {
        if field.tower_index(candidate).is_some() {
            halos.push((candidate, Halo::KeepCandidate));
            return halos;
        }
    }
    if let Some(selected) = game.selected_tower {
        if field.tower_index(selected).is_some() {
            halos.push((selected, Halo::Inspected));
            return halos;
        }
    }
    halos
}

} // verus!
