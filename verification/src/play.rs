use vstd::prelude::*;

use crate::field::{
    Field, FieldView, find_tower, field_wf, keep_outcome, tower_action_outcome,
    handle_selected_tower_action, keep_starter,
};
use crate::game::{
    AppScreen, Game, GameView, MAX_ROUND, Phase, RoundPlan, msg_build_round, next_speed, refreshed,
    spec_round_plan, toggled,
};
use crate::grid::{GridPos, OFFER_COUNT};
use crate::rng::{OfferRng, xorshift};
use crate::text::{decimal, digit, digit_char, push_char, push_decimal, push_str};
use crate::tower::spec_range_indicator;

verus! {

/// The run is on screen and not paused.
pub open spec fn running(g: GameView) -> bool {
    g.screen == AppScreen::Playing && !g.paused
}

/// Selects offer slot `index` (keys 1 to 5, or a click on the offer) while
/// building, if the slot still holds a gem.
pub fn select_offer(game: &mut Game, index: usize)
    requires
        old(game).wf(),
        index < OFFER_COUNT,
    ensures
        final(game).wf(),
        final(game)@ == (if running(old(game)@) && old(game).phase == Phase::Build && old(game)@.offers[index as int] is Some {
            GameView { selected_offer: Some(index), selected_tower: None, upgrade_source: None, ..old(game)@ }
        } else {
            old(game)@
        }),
{
    if game.screen != AppScreen::Playing || game.paused || game.phase != Phase::Build {
        return;
    }
    if game.offers[index].is_some() {
        game.selected_offer = Some(index);
        game.selected_tower = None;
        game.upgrade_source = None;
    }
}

/// The speed button, during a run.
pub fn handle_speed_click(game: &mut Game)
    ensures
        final(game)@ == (if old(game).screen == AppScreen::Playing {
            GameView { speed: next_speed(old(game).speed), ..old(game)@ }
        } else {
            old(game)@
        }),
{
    if game.screen == AppScreen::Playing {
        game.cycle_speed();
    }
}

/// The action button of the selected tower, during an unpaused run.
pub fn handle_tower_action_click(game: &mut Game, field: &mut Field)
    requires
        old(game).wf(),
        field_wf(old(field)),
    ensures
        final(game).wf(),
        field_wf(final(field)),
        running(old(game)@) ==> (final(game)@, final(field)@) == tower_action_outcome(old(game)@, old(field)@),
        !running(old(game)@) ==> final(game)@ == old(game)@ && final(field)@ == old(field)@,
{
    if game.screen != AppScreen::Playing || game.paused {
        return;
    }
    handle_selected_tower_action(game, field);
}

/// The Confirm button keeps the picked starter, during an unpaused run.
pub fn handle_keep_confirm_click(game: &mut Game, field: &mut Field)
    requires
        old(game).wf(),
        field_wf(old(field)),
    ensures
        final(game).wf(),
        field_wf(final(field)),
        (running(old(game)@) && old(game).keep_candidate is Some) ==> (final(game)@, final(field)@)
            == keep_outcome(old(game)@, old(field)@, old(game).keep_candidate->0, final(field)@.path),
        !(running(old(game)@) && old(game).keep_candidate is Some) ==> final(game)@ == old(game)@ && final(field)@ == old(field)@,
{
    if game.screen != AppScreen::Playing || game.paused {
        return;
    }
    if let Some(candidate) = game.keep_candidate {
        keep_starter(game, field, candidate);
    }
}

/// The selected tower exists and draws an aura ring, during an unpaused run.
pub open spec fn selected_has_ring(g: GameView, f: FieldView) -> bool {
    running(g) && match g.selected_tower {
        Some(id) => match find_tower(f.towers, id) {
            Some(i) => spec_range_indicator(f.towers[i].tower) is Some,
            None => false,
        },
        None => false,
    }
}

/// The show-range button toggles the aura ring of the selected tower, if it
/// has one.
pub fn handle_show_range_click(game: &mut Game, field: &Field)
    requires
        old(game).wf(),
        field_wf(field),
    ensures
        final(game).wf(),
        final(game)@ == (if selected_has_ring(old(game)@, field@) {
            GameView { shown_aura_ranges: toggled(old(game)@.shown_aura_ranges, old(game).selected_tower->0), ..old(game)@ }
        } else {
            old(game)@
        }),
{
    if game.screen != AppScreen::Playing || game.paused {
        return;
    }
    let id = match game.selected_tower {
        Some(id) => id,
        None => return,
    };
    let i = match field.tower_index(id) {
        Some(i) => i,
        None => return,
    };
    if field.towers[i].tower.range_indicator_radius_milli().is_some() {
        game.toggle_aura_range(id);
    }
}

/// "Wave starts in X.Y seconds." for a remaining time in tenths of a second.
pub open spec fn msg_countdown(tenths: nat) -> Seq<char> {
    "Wave starts in "@ + decimal(tenths / 10) + "."@ + seq![digit_char((tenths % 10) as int)] + " seconds."@
}

/// Milliseconds of countdown left after `scaled` more (speed-scaled)
/// milliseconds have passed.
pub open spec fn countdown_left(remaining: u32, scaled: nat) -> u32 {
    if scaled >= remaining { 0 } else { (remaining - scaled) as u32 }
}

/// The countdown time shown, in tenths of a second, rounded to nearest.
pub open spec fn shown_tenths(remaining: u32) -> nat {
    ((remaining + 50) / 100) as nat
}

/// Time runs the same whether it comes in one frame or two: the wave starts
/// once the scaled time since the countdown began adds up to the countdown.
pub proof fn law_countdown_adds_up(remaining: u32, a: nat, b: nat)
    ensures
        countdown_left(countdown_left(remaining, a), b) == countdown_left(remaining, a + b),
{
}

/// One frame of the countdown before a wave: `elapsed_milli` real
/// milliseconds pass at the game's speed, the message shows the time left,
/// and the wave begins once the countdown has run out.
pub fn update_wave_countdown(game: &mut Game, elapsed_milli: u64)
    requires
        old(game).wf(),
    ensures
        final(game).wf(),
        !(running(old(game)@) && old(game).phase == Phase::Countdown) ==> final(game)@ == old(game)@,
        (running(old(game)@) && old(game).phase == Phase::Countdown) ==> ({
            let left = countdown_left(old(game).countdown_milli, (elapsed_milli * old(game).speed) as nat);
            let g1 = GameView { countdown_milli: left, message: msg_countdown(shown_tenths(left)), ..old(game)@ };
            final(game)@ == (if left == 0 {
                GameView {
                    phase: Phase::Wave,
                    pending_enemies: spec_round_plan(old(game).round).count,
                    message: crate::game::msg_wave(crate::game::spec_round_kind(old(game).round), old(game).round),
                    ..g1
                }
            } else {
                g1
            })
        }),
{
    if game.screen != AppScreen::Playing || game.paused || game.phase != Phase::Countdown {
        return;
    }
    proof {
        assert(elapsed_milli as u128 * game.speed as u128 <= 0xffff_ffff_ffff_ffff * 255) by (nonlinear_arith)
            requires
                elapsed_milli <= 0xffff_ffff_ffff_ffff,
                game.speed <= 255,
        ;
    }
    let scaled: u128 = elapsed_milli as u128 * game.speed as u128;
    let left: u32 = if scaled >= game.countdown_milli as u128 { 0 } else { game.countdown_milli - scaled as u32 };
    game.countdown_milli = left;
    let tenths: u64 = (left as u64 + 50) / 100;
    let mut message = String::new();
    push_str(&mut message, "Wave starts in ");
    push_decimal(&mut message, tenths / 10);
    push_str(&mut message, ".");
    push_char(&mut message, digit(tenths % 10));
    push_str(&mut message, " seconds.");
    proof {
        assert(message@ =~= msg_countdown(shown_tenths(left)));
    }
    game.message = message;
    if left == 0 {
        game.begin_wave();
    }
}

/// One frame of a running wave. When the spawn timer fired (`spawn_due`)
/// and enemies are still queued, one is released and its plan returned.
/// Once none are queued and none were on the board (`enemies_alive` counts
/// the board as it was at the start of the frame), the next build round
/// begins.
pub fn run_wave(game: &mut Game, spawn_due: bool, enemies_alive: bool) -> (spawned: Option<RoundPlan>)
    requires
        old(game).wf(),
        old(game).round < MAX_ROUND,
    ensures
        final(game).wf(),
        !(running(old(game)@) && old(game).phase == Phase::Wave) ==> final(game)@ == old(game)@ && spawned is None,
        (running(old(game)@) && old(game).phase == Phase::Wave) ==> ({
            let spawn = old(game).pending_enemies > 0 && spawn_due;
            let pending = if spawn { (old(game).pending_enemies - 1) as u32 } else { old(game).pending_enemies };
            let g1 = GameView { pending_enemies: pending, ..old(game)@ };
            &&& spawned == (if spawn { Some(spec_round_plan(old(game).round)) } else { None })
            &&& final(game)@ == (if pending == 0 && !enemies_alive {
                GameView {
                    phase: Phase::Build,
                    round: (g1.round + 1) as u32,
                    upgrade_source: None,
                    message: msg_build_round((g1.round + 1) as u32),
                    ..refreshed(g1)
                }
            } else {
                g1
            })
        }),
{
    if game.screen != AppScreen::Playing || game.paused || game.phase != Phase::Wave {
        return None;
    }
    let mut spawned = None;
    if game.pending_enemies > 0 && spawn_due {
        spawned = Some(RoundPlan::for_round(game.round));
        game.pending_enemies = game.pending_enemies - 1;
    }
    if game.pending_enemies == 0 && !enemies_alive {
        game.begin_build_round();
    }
    spawned
}

/// An enemy got through (walked off the route's end, or flew across): one
/// life is lost.
pub fn enemy_leaked(game: &mut Game)
    requires
        old(game).wf(),
        old(game).lives > i32::MIN,
    ensures
        final(game).wf(),
        final(game)@ == (GameView { lives: (old(game).lives - 1) as i32, ..old(game)@ }),
{
    game.lives = game.lives - 1;
}

/// Killed enemies are reaped during an unpaused run, one gold each, whatever
/// dealt the blow. Returns whether they are reaped this frame.
pub fn reap_enemies(game: &mut Game, killed: u32) -> (reaped: bool)
    requires
        old(game).wf(),
        old(game).coins + killed <= u32::MAX,
    ensures
        final(game).wf(),
        reaped == running(old(game)@),
        reaped ==> final(game)@ == (GameView { coins: (old(game).coins + killed) as u32, ..old(game)@ }),
        !reaped ==> final(game)@ == old(game)@,
{
    if game.screen != AppScreen::Playing || game.paused {
        return false;
    }
    game.coins = game.coins + killed;
    true
}

/// A chance roll: one generator step gives a number below 1000, which
/// succeeds when it is below the chance in thousandths (a chance above 1000
/// always succeeds).
pub open spec fn roll_succeeds(state: u64, chance_milli: u32) -> bool {
    ((xorshift(state) as usize) % 1000) < (if chance_milli > 1000 { 1000 } else { chance_milli as int })
}

/// Rolls a chance given in thousandths.
pub fn roll_chance(rng: &mut OfferRng, chance_milli: u32) -> (hit: bool)
    ensures
        final(rng).state == xorshift(old(rng).state),
        hit == roll_succeeds(old(rng).state, chance_milli),
{
    let threshold: usize = if chance_milli > 1000 { 1000 } else { chance_milli as usize };
    rng.next_index(1000) < threshold
}

/// Gold a Lucky Asian Jade proc pays: half the round number, at least one.
pub open spec fn spec_lucky_jade_gold(round: u32) -> u32 {
    if round / 2 >= 1 { round / 2 } else { 1 }
}

pub fn lucky_jade_gold_reward(round: u32) -> (gold: u32)
    ensures
        gold == spec_lucky_jade_gold(round),
{
    let half = round / 2;
    if half >= 1 { half } else { 1 }
}

/// A Lucky Asian Jade hit rolls for bonus gold.
pub fn roll_lucky_jade_gold(game: &mut Game, gold_chance_milli: u32) -> (paid: bool)
    requires
        old(game).wf(),
        old(game).coins + spec_lucky_jade_gold(old(game).round) <= u32::MAX,
    ensures
        final(game).wf(),
        paid == roll_succeeds(old(game).rng.state, gold_chance_milli),
        final(game)@ == (GameView {
            rng: OfferRng { state: xorshift(old(game).rng.state) },
            coins: if paid { (old(game).coins + spec_lucky_jade_gold(old(game).round)) as u32 } else { old(game).coins },
            ..old(game)@
        }),
{
    let paid = roll_chance(&mut game.rng, gold_chance_milli);
    if paid {
        game.coins = game.coins + lucky_jade_gold_reward(game.round);
    }
    paid
}

/// Poison stacks after another hit: one more, up to the cap.
pub fn next_poison_stacks(stacks: u32, max_stacks: u32) -> (next: u32)
    requires
        stacks < u32::MAX,
    ensures
        next == (if stacks + 1 <= max_stacks { (stacks + 1) as u32 } else { max_stacks }),
{
    if stacks + 1 <= max_stacks { stacks + 1 } else { max_stacks }
}

/// The cooldown speed-up from opal auras in range, in thousandths: one plus
/// the summed reductions, at most 2.5.
pub open spec fn spec_haste(reductions: Seq<u32>) -> int
    decreases reductions.len(),
{
    if reductions.len() == 0 { 1000 } else { spec_haste(reductions.drop_last()) + reductions.last() }
}

pub fn haste_multiplier_milli(reductions: &Vec<u32>) -> (haste: u64)
    requires
        reductions@.len() < 0x1_0000_0000,
    ensures
        haste == (if spec_haste(reductions@) > 2500 { 2500 } else { spec_haste(reductions@) }),
{
    let mut total: u64 = 1000;
    let mut i: usize = 0;
    while i < reductions.len()
        invariant
            i <= reductions@.len(),
            reductions@.len() < 0x1_0000_0000,
            total == spec_haste(reductions@.subrange(0, i as int)),
            total <= 1000 + i * 0xFFFF_FFFF,
        decreases reductions@.len() - i,
    {
        proof {
            assert(reductions@.subrange(0, i + 1).drop_last() =~= reductions@.subrange(0, i as int));
            assert(i * 0xFFFF_FFFF + 0xFFFF_FFFF == (i + 1) * 0xFFFF_FFFF) by (nonlinear_arith);
            assert((i + 1) * 0xFFFF_FFFF <= 0x1_0000_0000 * 0xFFFF_FFFF) by (nonlinear_arith)
                requires
                    i + 1 <= 0x1_0000_0000,
            ;
        }
        total = total + reductions[i] as u64;
        i = i + 1;
    }
    proof {
        assert(reductions@.subrange(0, reductions@.len() as int) =~= reductions@);
    }
    if total > 2500 { 2500 } else { total }
}

} // verus!
