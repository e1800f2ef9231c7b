use vstd::prelude::*;

use crate::external::{duration_as_nanos, duration_since_unix_epoch, system_time_now};
use crate::gem::{GemKind, gem_kind_at, spec_gem_kinds, spec_gem_name};
use crate::grid::OFFER_COUNT;
use crate::protocol::GameMode;
use crate::rng::{OfferRng, xorshift};
use crate::text::{decimal, push_decimal, push_str};

verus! {

/// Lives a run starts with.
pub const STARTING_LIVES: i32 = 20;
/// Seed used when the wall clock reads earlier than the Unix epoch.
pub const FALLBACK_GAME_SEED: u64 = 0x5EED;
/// Highest round whose plan can be computed without overflow.
pub const MAX_ROUND: u32 = 2_147_483_645;
/// Seconds between keeping a starter and the wave.
pub const WAVE_COUNTDOWN_MILLI: u32 = 3000;
/// Seconds between enemy spawns during a wave.
pub const SPAWN_INTERVAL_MILLI: u32 = 650;

#[derive(Clone, Copy, PartialEq, Eq, Structural, Debug)]
pub enum AppScreen {
    Home,
    PlayType,
    ModeSelect,
    MultiplayerMenu,
    DisplayName,
    HostLobby,
    JoinLobby,
    WaitingLobby,
    HowToPlay,
    Settings,
    Playing,
}

#[derive(Clone, Copy, PartialEq, Eq, Structural, Debug)]
pub enum Phase {
    Build,
    Countdown,
    Wave,
}

/// The flavour of a wave, derived from the round number alone.
#[derive(Clone, Copy, PartialEq, Eq, Structural, Debug)]
pub enum RoundKind {
    Normal,
    Swift,
    Flying,
    Boss,
}

pub open spec fn spec_mode_name(mode: GameMode) -> Seq<char> {
    match mode {
        GameMode::Standard => "Standard"@,
        GameMode::Random => "Random"@,
    }
}

impl GameMode {
    pub fn name(self) -> (name: &'static str)
        ensures
            name@ == spec_mode_name(self),
    {
        match self {
            GameMode::Standard => "Standard",
            GameMode::Random => "Random",
        }
    }
}

pub open spec fn spec_kind_label(kind: RoundKind) -> Seq<char> {
    match kind {
        RoundKind::Normal => "Standard Wave"@,
        RoundKind::Swift => "Swift Wave"@,
        RoundKind::Flying => "Flying Wave"@,
        RoundKind::Boss => "Boss Wave"@,
    }
}

pub open spec fn spec_kind_description(kind: RoundKind) -> Seq<char> {
    match kind {
        RoundKind::Normal => "A standard column of grounded foes."@,
        RoundKind::Swift => "Fast but fragile — they sprint the maze."@,
        RoundKind::Flying => "Ignores the maze and flies straight across."@,
        RoundKind::Boss => "A single massive foe with enormous health."@,
    }
}

impl RoundKind {
    pub fn label(self) -> (label: &'static str)
        ensures
            label@ == spec_kind_label(self),
    {
        match self {
            RoundKind::Normal => "Standard Wave",
            RoundKind::Swift => "Swift Wave",
            RoundKind::Flying => "Flying Wave",
            RoundKind::Boss => "Boss Wave",
        }
    }

    pub fn description(self) -> (description: &'static str)
        ensures
            description@ == spec_kind_description(self),
    {
        match self {
            RoundKind::Normal => "A standard column of grounded foes.",
            RoundKind::Swift => "Fast but fragile — they sprint the maze.",
            RoundKind::Flying => "Ignores the maze and flies straight across.",
            RoundKind::Boss => "A single massive foe with enormous health.",
        }
    }
}

/// Per-enemy stats and head count of a round. Health and speed are in
/// hundredths.
#[derive(Clone, Copy, PartialEq, Eq, Structural, Debug)]
pub struct RoundPlan {
    pub kind: RoundKind,
    pub count: u32,
    pub health_centi: u64,
    pub speed_centi: u64,
    pub flying: bool,
}

/// Bosses every 20 rounds take precedence; flying every 7 and swift every 5
/// fill in between standard waves.
pub open spec fn spec_round_kind(round: u32) -> RoundKind {
    if round % 20 == 0 {
        RoundKind::Boss
    } else if round % 7 == 0 {
        RoundKind::Flying
    } else if round % 5 == 0 {
        RoundKind::Swift
    } else {
        RoundKind::Normal
    }
}

pub open spec fn spec_round_plan(round: u32) -> RoundPlan {
    let r = round as int;
    let count: int = if r == 1 { 5 } else if r == 2 { 7 } else { 5 + 2 * r };
    let health: int = if r == 1 { (30 + 8 * r) * 75 } else if r == 2 { (30 + 8 * r) * 85 } else { (30 + 8 * r) * 100 };
    let speed: int = if r == 1 { (72 + 3 * r) * 92 } else if r == 2 { (72 + 3 * r) * 95 } else { (72 + 3 * r) * 100 };
    let kind = spec_round_kind(round);
    match kind {
        RoundKind::Normal => RoundPlan { kind, count: count as u32, health_centi: health as u64, speed_centi: speed as u64, flying: false },
        RoundKind::Swift => RoundPlan { kind, count: count as u32, health_centi: (health * 50 / 100) as u64, speed_centi: (speed * 190 / 100) as u64, flying: false },
        RoundKind::Flying => RoundPlan { kind, count: count as u32, health_centi: (health * 55 / 100) as u64, speed_centi: (speed * 70 / 100) as u64, flying: true },
        RoundKind::Boss => RoundPlan { kind, count: 1, health_centi: (health * 28) as u64, speed_centi: (speed * 55 / 100) as u64, flying: false },
    }
}

/// Every wave but a boss's sends the round's base head count whatever its
/// kind: 5 in round 1, 7 in round 2, then 5 plus 2 per round, so each
/// round after the second sends two more than the one before; a boss comes
/// alone. Bosses come every 20th round, flying waves every other 7th, and
/// only a flying wave flies.
pub proof fn law_round_head_count(round: u32)
    requires
        1 <= round <= MAX_ROUND,
    ensures
        spec_round_plan(round).kind != RoundKind::Boss ==> spec_round_plan(round).count
            == (if round == 1 { 5 } else if round == 2 { 7 } else { 5 + 2 * round }),
        spec_round_plan(round).kind == RoundKind::Boss ==> spec_round_plan(round).count == 1,
        round >= 3 && round < MAX_ROUND && spec_round_plan(round).kind != RoundKind::Boss
            && spec_round_plan((round + 1) as u32).kind != RoundKind::Boss
            ==> spec_round_plan((round + 1) as u32).count == spec_round_plan(round).count + 2,
        spec_round_plan(round).kind == RoundKind::Boss <==> round % 20 == 0,
        spec_round_plan(round).kind == RoundKind::Flying <==> round % 7 == 0 && round % 20 != 0,
        spec_round_plan(round).flying <==> spec_round_plan(round).kind == RoundKind::Flying,
{
}

/// From the third round on, waves of one kind only get bigger, tougher and
/// faster: a later wave of the same kind has more enemies (bosses aside, who
/// come alone), more health and more speed.
pub proof fn law_waves_grow(early: u32, late: u32)
    requires
        3 <= early < late <= MAX_ROUND,
        spec_round_plan(early).kind == spec_round_plan(late).kind,
    ensures
        spec_round_plan(early).kind != RoundKind::Boss ==> spec_round_plan(early).count < spec_round_plan(late).count,
        spec_round_plan(early).health_centi < spec_round_plan(late).health_centi,
        spec_round_plan(early).speed_centi < spec_round_plan(late).speed_centi,
{
}

impl RoundPlan {
    /// The plan of round `round`: head count 5 + 2 per round (5 and 7 for the
    /// first two), health 30 + 8 and speed 72 + 3 per round (softened in the
    /// first two rounds), then adjusted by the round's kind.
    pub fn for_round(round: u32) -> (plan: RoundPlan)
        requires
            round <= MAX_ROUND,
        ensures
            plan == spec_round_plan(round),
    {
        let mut base_count: u32 = 5 + round * 2;
        let mut base_health: u64 = (30 + (round as u64) * 8) * 100;
        let mut base_speed: u64 = (72 + (round as u64) * 3) * 100;
        if round == 1 {
            base_count = 5;
            base_health = base_health * 75 / 100;
            base_speed = base_speed * 92 / 100;
        } else if round == 2 {
            base_count = 7;
            base_health = base_health * 85 / 100;
            base_speed = base_speed * 95 / 100;
        }
        let kind = if round % 20 == 0 {
            RoundKind::Boss
        } else if round % 7 == 0 {
            RoundKind::Flying
        } else if round % 5 == 0 {
            RoundKind::Swift
        } else {
            RoundKind::Normal
        };
        match kind {
            RoundKind::Normal => RoundPlan { kind, count: base_count, health_centi: base_health, speed_centi: base_speed, flying: false },
            RoundKind::Swift => RoundPlan {
                kind,
                count: base_count,
                health_centi: base_health * 50 / 100,
                speed_centi: base_speed * 190 / 100,
                flying: false,
            },
            RoundKind::Flying => RoundPlan {
                kind,
                count: base_count,
                health_centi: base_health * 55 / 100,
                speed_centi: base_speed * 70 / 100,
                flying: true,
            },
            RoundKind::Boss => RoundPlan {
                kind,
                count: 1,
                health_centi: base_health * 28,
                speed_centi: base_speed * 55 / 100,
                flying: false,
            },
        }
    }
}

/// Every round's plan follows its kind: a boss round sends one enemy, only a
/// flying round flies, and the kind cadence is 20 / 7 / 5.
pub proof fn law_round_plan(round: u32)
    requires
        round <= MAX_ROUND,
    ensures
        spec_round_plan(round).kind == spec_round_kind(round),
        spec_round_plan(round).kind == RoundKind::Boss <==> round % 20 == 0,
        spec_round_plan(round).kind == RoundKind::Boss ==> spec_round_plan(round).count == 1,
        spec_round_plan(round).flying <==> spec_round_plan(round).kind == RoundKind::Flying,
        spec_round_plan(round).kind == RoundKind::Normal ==> spec_round_plan(round).count == (if round == 1 { 5 } else if round == 2 { 7 } else { 5 + 2 * round }),
{
}

/// Five offers drawn from `state`, each gem picked by one generator step.
pub open spec fn spec_offers(state: u64, n: nat) -> (Seq<Option<GemKind>>, u64)
    decreases n,
{
    if n == 0 {
        (Seq::empty(), state)
    } else {
        let (prev, s) = spec_offers(state, (n - 1) as nat);
        let s2 = xorshift(s);
        (prev.push(Some(spec_gem_kinds()[((s2 as usize) % 8) as int])), s2)
    }
}

/// Fills the offer slots, each with a gem drawn uniformly by index from the
/// generator.
pub fn random_offers(rng: &mut OfferRng) -> (offers: Vec<Option<GemKind>>)
    ensures
        (offers@, final(rng).state) == spec_offers(old(rng).state, OFFER_COUNT as nat),
        offers@.len() == OFFER_COUNT,
        forall|i: int| 0 <= i < OFFER_COUNT ==> (#[trigger] offers@[i]) is Some,
{
    let mut offers: Vec<Option<GemKind>> = Vec::new();
    let mut i: usize = 0;
    while i < OFFER_COUNT
        invariant
            i <= OFFER_COUNT,
            (offers@, rng.state) == spec_offers(old(rng).state, i as nat),
            offers@.len() == i,
            forall|t: int| 0 <= t < i ==> (#[trigger] offers@[t]) is Some,
        decreases OFFER_COUNT - i,
    {
        let index = rng.next_index(8);
        offers.push(Some(gem_kind_at(index)));
        i = i + 1;
    }
    offers
}

pub open spec fn msg_place_all() -> Seq<char> {
    "Place all five chipped gems, then choose one to keep."@
}

pub open spec fn msg_kept(gem: GemKind) -> Seq<char> {
    "Kept a Chipped "@ + spec_gem_name(gem) + ". Wave starts in 3 seconds."@
}

pub open spec fn msg_wave(kind: RoundKind, round: u32) -> Seq<char> {
    match kind {
        RoundKind::Normal => "Wave "@ + decimal(round as nat) + " is moving through the checkpoints."@,
        RoundKind::Swift => "Wave "@ + decimal(round as nat) + " is fast but fragile — hold fast."@,
        RoundKind::Flying => "Wave "@ + decimal(round as nat) + " takes to the air and ignores the maze."@,
        RoundKind::Boss => "Boss wave "@ + decimal(round as nat) + "! A single massive foe approaches."@,
    }
}

pub open spec fn msg_build_round(round: u32) -> Seq<char> {
    let kind = spec_round_kind(round);
    if kind == RoundKind::Normal {
        "Round "@ + decimal(round as nat) + ": place all five chipped gems, then choose one to keep."@
    } else {
        "Round "@ + decimal(round as nat) + " ("@ + spec_kind_label(kind) + " ahead): place all five chipped gems, then choose one to keep."@
    }
}

pub open spec fn msg_mode(mode: GameMode) -> Seq<char> {
    spec_mode_name(mode) + " mode: place all five chipped gems, then choose one to keep."@
}

/// The state of a single-player run (rendering timers live with the caller).
/// Towers are referred to by entity id.
pub struct Game {
    pub screen: AppScreen,
    pub mode: GameMode,
    pub phase: Phase,
    pub round: u32,
    pub lives: i32,
    pub coins: u32,
    pub offers: Vec<Option<GemKind>>,
    pub selected_offer: Option<usize>,
    pub placed_starters: Vec<Option<u64>>,
    pub pending_enemies: u32,
    /// Milliseconds left of the countdown before the wave.
    pub countdown_milli: u32,
    pub rng: OfferRng,
    pub message: String,
    pub selected_tower: Option<u64>,
    pub upgrade_source: Option<u64>,
    pub keep_candidate: Option<u64>,
    pub shown_aura_ranges: Vec<u64>,
    pub show_path_overlay: bool,
    pub paused: bool,
    pub speed: u8,
}

/// The content of a run's state.
pub struct GameView {
    pub screen: AppScreen,
    pub mode: GameMode,
    pub phase: Phase,
    pub round: u32,
    pub lives: i32,
    pub coins: u32,
    pub offers: Seq<Option<GemKind>>,
    pub selected_offer: Option<usize>,
    pub placed_starters: Seq<Option<u64>>,
    pub pending_enemies: u32,
    pub countdown_milli: u32,
    pub rng: OfferRng,
    pub message: Seq<char>,
    pub selected_tower: Option<u64>,
    pub upgrade_source: Option<u64>,
    pub keep_candidate: Option<u64>,
    pub shown_aura_ranges: Seq<u64>,
    pub show_path_overlay: bool,
    pub paused: bool,
    pub speed: u8,
}

impl View for Game {
    type V = GameView;

    open spec fn view(&self) -> GameView {
        GameView {
            screen: self.screen,
            mode: self.mode,
            phase: self.phase,
            round: self.round,
            lives: self.lives,
            coins: self.coins,
            offers: self.offers@,
            selected_offer: self.selected_offer,
            placed_starters: self.placed_starters@,
            pending_enemies: self.pending_enemies,
            countdown_milli: self.countdown_milli,
            rng: self.rng,
            message: self.message@,
            selected_tower: self.selected_tower,
            upgrade_source: self.upgrade_source,
            keep_candidate: self.keep_candidate,
            shown_aura_ranges: self.shown_aura_ranges@,
            show_path_overlay: self.show_path_overlay,
            paused: self.paused,
            speed: self.speed,
        }
    }
}

/// The speed after the speed button: 1x to 2x to 3x and back to 1x.
pub open spec fn next_speed(speed: u8) -> u8 {
    if speed == 1 { 2 } else if speed == 2 { 3 } else { 1 }
}

/// New offers from the generator, with the selection, placed starters and
/// keep candidate cleared.
pub open spec fn refreshed(g: GameView) -> GameView {
    let (offers, state) = spec_offers(g.rng.state, OFFER_COUNT as nat);
    GameView {
        offers,
        rng: OfferRng { state },
        selected_offer: None,
        placed_starters: empty_slots::<u64>(OFFER_COUNT as nat),
        keep_candidate: None,
        ..g
    }
}

/// The shown aura rings after toggling `id`.
pub open spec fn toggled(ids: Seq<u64>, id: u64) -> Seq<u64> {
    if ids.contains(id) { without_aura(ids, id) } else { ids.push(id) }
}

/// A fresh run in `mode` on the same screen and settings: round 1, 20 lives,
/// no gold, new offers from the generator, nothing selected, unpaused at 1x.
pub open spec fn reset_run(g: GameView, mode: GameMode) -> GameView {
    let (offers, state) = spec_offers(g.rng.state, OFFER_COUNT as nat);
    GameView {
        mode,
        phase: Phase::Build,
        round: 1,
        lives: STARTING_LIVES,
        coins: 0,
        pending_enemies: 0,
        offers,
        rng: OfferRng { state },
        selected_offer: None,
        placed_starters: empty_slots::<u64>(OFFER_COUNT as nat),
        selected_tower: None,
        upgrade_source: None,
        keep_candidate: None,
        shown_aura_ranges: Seq::empty(),
        paused: false,
        speed: 1,
        message: msg_mode(mode),
        ..g
    }
}

/// `ids` without `id` (which occurs at most once).
pub open spec fn without_aura(ids: Seq<u64>, id: u64) -> Seq<u64> {
    if exists|i: int| 0 <= i < ids.len() && ids[i] == id {
        ids.remove(choose|i: int| 0 <= i < ids.len() && ids[i] == id)
    } else {
        ids
    }
}

pub open spec fn count_placed(starters: Seq<Option<u64>>) -> int
    decreases starters.len(),
{
    if starters.len() == 0 { 0 } else { count_placed(starters.drop_last()) + (if starters.last() is Some { 1int } else { 0int }) }
}

pub proof fn lemma_count_placed_bound(s: Seq<Option<u64>>)
    ensures
        0 <= count_placed(s) <= s.len(),
        count_placed(s) == s.len() <==> forall|i: int| 0 <= i < s.len() ==> (#[trigger] s[i]) is Some,
    decreases s.len(),
{
    if s.len() > 0 {
        lemma_count_placed_bound(s.drop_last());
        assert forall|i: int| 0 <= i < s.len() - 1 implies s.drop_last()[i] == s[i] by {}
        if count_placed(s) == s.len() {
            assert forall|i: int| 0 <= i < s.len() implies (#[trigger] s[i]) is Some by {
                if i < s.len() - 1 {
                    assert(s.drop_last()[i] is Some);
                }
            }
        }
        if forall|i: int| 0 <= i < s.len() ==> (#[trigger] s[i]) is Some {
            assert forall|i: int| 0 <= i < s.drop_last().len() implies (#[trigger] s.drop_last()[i]) is Some by {
                assert(s[i] is Some);
            }
        }
    }
}

pub open spec fn empty_slots<T>(n: nat) -> Seq<Option<T>> {
    Seq::new(n, |i: int| None::<T>)
}

fn empty_offer_slots() -> (v: Vec<Option<GemKind>>)
    ensures
        v@ == empty_slots::<GemKind>(OFFER_COUNT as nat),
{
    let v = vec![None, None, None, None, None];
    assert(v@ =~= empty_slots::<GemKind>(OFFER_COUNT as nat));
    v
}

fn empty_starter_slots() -> (v: Vec<Option<u64>>)
    ensures
        v@ == empty_slots::<u64>(OFFER_COUNT as nat),
{
    let v = vec![None, None, None, None, None];
    assert(v@ =~= empty_slots::<u64>(OFFER_COUNT as nat));
    v
}

/// A new run from `seed`: the home screen, Standard mode, round 1 of the
/// build phase with 20 lives and no gold, and five offers drawn from the
/// seeded generator.
pub open spec fn spec_new_game(seed: u64) -> GameView {
    let (offers, state) = spec_offers(OfferRng::spec_new(seed).state, OFFER_COUNT as nat);
    GameView {
        screen: AppScreen::Home,
        mode: GameMode::Standard,
        phase: Phase::Build,
        round: 1,
        lives: STARTING_LIVES,
        coins: 0,
        offers,
        selected_offer: None,
        placed_starters: empty_slots::<u64>(OFFER_COUNT as nat),
        pending_enemies: 0,
        countdown_milli: WAVE_COUNTDOWN_MILLI,
        rng: OfferRng { state },
        message: msg_place_all(),
        selected_tower: None,
        upgrade_source: None,
        keep_candidate: None,
        shown_aura_ranges: Seq::empty(),
        show_path_overlay: true,
        paused: false,
        speed: 1,
    }
}

impl Game {
    /// Offer and starter slots have one entry per offer, the selected offer
    /// is one of them, shown aura ranges hold no duplicates, and the round
    /// can still be planned.
    pub open spec fn wf(&self) -> bool {
        &&& self.offers@.len() == OFFER_COUNT
        &&& self.placed_starters@.len() == OFFER_COUNT
        &&& (self.selected_offer matches Some(i) ==> i < OFFER_COUNT)
        &&& self.shown_aura_ranges@.no_duplicates()
        &&& 1 <= self.round <= MAX_ROUND
    }

    /// A run on the home screen, with offers drawn from `seed`.
    pub fn with_seed(seed: u64) -> (game: Game)
        ensures
            game.wf(),
            game@ == spec_new_game(seed),
    {
        let mut rng = OfferRng::new(seed);
        let offers = random_offers(&mut rng);
        let mut message = String::new();
        push_str(&mut message, "Place all five chipped gems, then choose one to keep.");
        Game {
            screen: AppScreen::Home,
            mode: GameMode::Standard,
            phase: Phase::Build,
            round: 1,
            lives: STARTING_LIVES,
            coins: 0,
            offers,
            selected_offer: None,
            placed_starters: empty_starter_slots(),
            pending_enemies: 0,
            countdown_milli: WAVE_COUNTDOWN_MILLI,
            rng,
            message,
            selected_tower: None,
            upgrade_source: None,
            keep_candidate: None,
            shown_aura_ranges: Vec::new(),
            show_path_overlay: true,
            paused: false,
            speed: 1,
        }
    }

    /// A run seeded from the wall clock (nanoseconds since the Unix epoch, or
    /// `FALLBACK_GAME_SEED` when the clock reads earlier).
    pub fn new() -> (game: Game)
        ensures
            game.wf(),
            exists|seed: u64| game@ == #[trigger] spec_new_game(seed),
    {
        let now = system_time_now();
        let seed = match duration_since_unix_epoch(&now) {
            Some(elapsed) => duration_as_nanos(&elapsed) as u64,
            None => FALLBACK_GAME_SEED,
        };
        Game::with_seed(seed)
    }

    /// The gem of the selected offer, if the slot still holds one.
    pub fn selected_gem(&self) -> (gem: Option<GemKind>)
        requires
            self.wf(),
        ensures
            gem == (match self.selected_offer {
                Some(i) => self.offers@[i as int],
                None => None,
            }),
    {
        match self.selected_offer {
            Some(index) => self.offers[index],
            None => None,
        }
    }

    /// Speed 1 goes to 2, 2 to 3, anything else back to 1.
    pub fn cycle_speed(&mut self)
        ensures
            final(self)@ == (GameView { speed: next_speed(old(self).speed), ..old(self)@ }),
    {
        self.speed = if self.speed == 1 { 2 } else if self.speed == 2 { 3 } else { 1 };
    }

    /// New offers from the generator; clears the selection, the placed
    /// starters and the keep candidate.
    pub fn refresh_offers(&mut self)
        requires
            old(self).wf(),
        ensures
            final(self).wf(),
            final(self)@ == refreshed(old(self)@),
    {
        self.offers = random_offers(&mut self.rng);
        self.selected_offer = None;
        self.placed_starters = empty_starter_slots();
        self.keep_candidate = None;
    }

    /// Empties every offer slot; clears the selection, the placed starters
    /// and the keep candidate.
    pub fn clear_offers(&mut self)
        requires
            old(self).wf(),
        ensures
            final(self).wf(),
            final(self)@ == (GameView {
                offers: empty_slots::<GemKind>(OFFER_COUNT as nat),
                selected_offer: None,
                placed_starters: empty_slots::<u64>(OFFER_COUNT as nat),
                keep_candidate: None,
                ..old(self)@
            }),
    {
        self.offers = empty_offer_slots();
        self.selected_offer = None;
        self.placed_starters = empty_starter_slots();
        self.keep_candidate = None;
    }

    /// Shows the aura ring of `tower` if hidden, hides it if shown.
    pub fn toggle_aura_range(&mut self, tower: u64)
        requires
            old(self).wf(),
        ensures
            final(self).wf(),
            final(self).shown_aura_ranges@.to_set() == (if old(self).shown_aura_ranges@.contains(tower) {
                old(self).shown_aura_ranges@.to_set().remove(tower)
            } else {
                old(self).shown_aura_ranges@.to_set().insert(tower)
            }),
            final(self)@ == (GameView { shown_aura_ranges: toggled(old(self)@.shown_aura_ranges, tower), ..old(self)@ }),
    {
        let ghost before = self.shown_aura_ranges@;
        let mut i: usize = 0;
        let n = self.shown_aura_ranges.len();
        let mut found = false;
        while i < n && !found
            invariant
                n == before.len(),
                self.shown_aura_ranges@ == before,
                i <= n,
                found ==> i < n && before[i as int] == tower,
                !found ==> forall|t: int| 0 <= t < i ==> before[t] != tower,
            decreases n - i + (if found { 0int } else { 1int }),
        {
            if self.shown_aura_ranges[i] == tower {
                found = true;
            } else {
                i = i + 1;
            }
        }
        if found {
            self.shown_aura_ranges.remove(i);
            proof {
                let after = self.shown_aura_ranges@;
                assert(after == before.remove(i as int));
                assert(before.contains(tower));
                let k = choose|k: int| 0 <= k < before.len() && before[k] == tower;
                assert(k == i) by {
                    if k != i {
                        assert(before.no_duplicates());
                        assert(before[k] == before[i as int]);
                    }
                }
                assert forall|x: u64| after.to_set().contains(x) == before.to_set().remove(tower).contains(x) by {
                    if after.contains(x) {
                        let k = choose|k: int| 0 <= k < after.len() && after[k] == x;
                        if k < i {
                            assert(after[k] == before[k]);
                        } else {
                            assert(after[k] == before[k + 1]);
                        }
                    }
                    if before.contains(x) && x != tower {
                        let k = choose|k: int| 0 <= k < before.len() && before[k] == x;
                        if k < i {
                            assert(after[k] == x);
                        } else {
                            assert(k != i);
                            assert(after[k - 1] == x);
                        }
                    }
                }
                assert(after.to_set() =~= before.to_set().remove(tower));
                assert(after.no_duplicates()) by {
                    assert forall|a: int, b: int| 0 <= a < b < after.len() implies after[a] != after[b] by {
                        let a2 = if a < i { a } else { a + 1 };
                        let b2 = if b < i { b } else { b + 1 };
                        assert(after[a] == before[a2]);
                        assert(after[b] == before[b2]);
                    }
                }
            }
        } else {
            self.shown_aura_ranges.push(tower);
            proof {
                assert(!before.contains(tower));
                let after = self.shown_aura_ranges@;
                assert forall|x: u64| after.to_set().contains(x) == before.to_set().insert(tower).contains(x) by {
                    if after.contains(x) {
                        let k = choose|k: int| 0 <= k < after.len() && after[k] == x;
                        if k < before.len() {
                            assert(after[k] == before[k]);
                        }
                    }
                    if before.contains(x) {
                        let k = choose|k: int| 0 <= k < before.len() && before[k] == x;
                        assert(after[k] == x);
                    }
                    if x == tower {
                        assert(after[before.len() as int] == x);
                    }
                }
                assert(after.to_set() =~= before.to_set().insert(tower));
                assert(after.no_duplicates()) by {
                    assert forall|a: int, b: int| 0 <= a < b < after.len() implies after[a] != after[b] by {
                        if b == before.len() {
                            assert(after[a] == before[a]);
                        } else {
                            assert(after[a] == before[a]);
                            assert(after[b] == before[b]);
                        }
                    }
                }
            }
        }
    }

    /// Hides the aura ring of `tower` (a removed tower).
    pub fn forget_aura_range(&mut self, tower: u64)
        requires
            old(self).wf(),
        ensures
            final(self).wf(),
            final(self)@ == (GameView { shown_aura_ranges: without_aura(old(self)@.shown_aura_ranges, tower), ..old(self)@ }),
    {
        let ghost before = self.shown_aura_ranges@;
        let n = self.shown_aura_ranges.len();
        let mut i: usize = 0;
        let mut found = false;
        while i < n && !found
            invariant
                n == before.len(),
                self.shown_aura_ranges@ == before,
                i <= n,
                found ==> i < n && before[i as int] == tower,
                !found ==> forall|t: int| 0 <= t < i ==> before[t] != tower,
            decreases n - i + (if found { 0int } else { 1int }),
        {
            if self.shown_aura_ranges[i] == tower {
                found = true;
            } else {
                i = i + 1;
            }
        }
        if found {
            self.shown_aura_ranges.remove(i);
            proof {
                let k = choose|k: int| 0 <= k < before.len() && before[k] == tower;
                assert(k == i) by {
                    if k != i {
                        assert(before.no_duplicates());
                        assert(before[k] == before[i as int]);
                    }
                }
                let after = self.shown_aura_ranges@;
                assert(after.no_duplicates()) by {
                    assert forall|a: int, b: int| 0 <= a < b < after.len() implies after[a] != after[b] by {
                        let a2 = if a < i { a } else { a + 1 };
                        let b2 = if b < i { b } else { b + 1 };
                        assert(after[a] == before[a2]);
                        assert(after[b] == before[b2]);
                    }
                }
            }
        }
    }

    /// Every offer slot has been placed.
    pub fn all_starters_placed(&self) -> (b: bool)
        requires
            self.wf(),
        ensures
            b == forall|i: int| 0 <= i < OFFER_COUNT ==> (#[trigger] self.placed_starters@[i]) is Some,
    {
        let n = self.placed_starter_count();
        proof {
            lemma_count_placed_bound(self.placed_starters@);
        }
        n == OFFER_COUNT
    }

    /// How many offer slots have been placed.
    pub fn placed_starter_count(&self) -> (n: usize)
        requires
            self.wf(),
        ensures
            n == count_placed(self.placed_starters@),
    {
        let mut n: usize = 0;
        let mut i: usize = 0;
        while i < self.placed_starters.len()
            invariant
                i <= self.placed_starters@.len(),
                self.placed_starters@.len() == OFFER_COUNT,
                n == count_placed(self.placed_starters@.subrange(0, i as int)),
                n <= i,
            decreases self.placed_starters@.len() - i,
        {
            proof {
                assert(self.placed_starters@.subrange(0, i + 1).drop_last() =~= self.placed_starters@.subrange(0, i as int));
            }
            if self.placed_starters[i].is_some() {
                n = n + 1;
            }
            i = i + 1;
        }
        proof {
            assert(self.placed_starters@.subrange(0, OFFER_COUNT as int) =~= self.placed_starters@);
        }
        n
    }

    /// The player kept a Chipped `gem`: the countdown to the wave starts and
    /// the offers and tower selection are cleared.
    pub fn begin_countdown(&mut self, gem: GemKind)
        requires
            old(self).wf(),
        ensures
            final(self).wf(),
            final(self)@ == (GameView {
                phase: Phase::Countdown,
                offers: empty_slots::<GemKind>(OFFER_COUNT as nat),
                selected_offer: None,
                placed_starters: empty_slots::<u64>(OFFER_COUNT as nat),
                keep_candidate: None,
                selected_tower: None,
                upgrade_source: None,
                countdown_milli: WAVE_COUNTDOWN_MILLI,
                message: msg_kept(gem),
                ..old(self)@
            }),
    {
        self.phase = Phase::Countdown;
        self.countdown_milli = WAVE_COUNTDOWN_MILLI;
        self.clear_offers();
        self.selected_tower = None;
        self.upgrade_source = None;
        let mut message = String::new();
        push_str(&mut message, "Kept a Chipped ");
        push_str(&mut message, gem.name());
        push_str(&mut message, ". Wave starts in 3 seconds.");
        self.message = message;
    }

    /// The wave of the current round starts: its enemies are queued and the
    /// message announces its kind.
    pub fn begin_wave(&mut self)
        requires
            old(self).wf(),
        ensures
            final(self).wf(),
            final(self)@ == (GameView {
                phase: Phase::Wave,
                pending_enemies: spec_round_plan(old(self).round).count,
                message: msg_wave(spec_round_kind(old(self).round), old(self).round),
                ..old(self)@
            }),
    {
        self.phase = Phase::Wave;
        let plan = RoundPlan::for_round(self.round);
        self.pending_enemies = plan.count;
        let mut message = String::new();
        match plan.kind {
            RoundKind::Normal => {
                push_str(&mut message, "Wave ");
                push_decimal(&mut message, self.round as u64);
                push_str(&mut message, " is moving through the checkpoints.");
            },
            RoundKind::Swift => {
                push_str(&mut message, "Wave ");
                push_decimal(&mut message, self.round as u64);
                push_str(&mut message, " is fast but fragile — hold fast.");
            },
            RoundKind::Flying => {
                push_str(&mut message, "Wave ");
                push_decimal(&mut message, self.round as u64);
                push_str(&mut message, " takes to the air and ignores the maze.");
            },
            RoundKind::Boss => {
                push_str(&mut message, "Boss wave ");
                push_decimal(&mut message, self.round as u64);
                push_str(&mut message, "! A single massive foe approaches.");
            },
        }
        self.message = message;
    }

    /// The next build round: the round number goes up and new offers are
    /// drawn.
    pub fn begin_build_round(&mut self)
        requires
            old(self).wf(),
            old(self).round < MAX_ROUND,
        ensures
            final(self).wf(),
            final(self)@ == (GameView {
                phase: Phase::Build,
                round: (old(self).round + 1) as u32,
                upgrade_source: None,
                message: msg_build_round((old(self).round + 1) as u32),
                ..refreshed(old(self)@)
            }),
    {
        self.phase = Phase::Build;
        self.round = self.round + 1;
        self.refresh_offers();
        self.upgrade_source = None;
        let kind = RoundPlan::for_round(self.round).kind;
        let mut message = String::new();
        if kind == RoundKind::Normal {
            push_str(&mut message, "Round ");
            push_decimal(&mut message, self.round as u64);
            push_str(&mut message, ": place all five chipped gems, then choose one to keep.");
        } else {
            push_str(&mut message, "Round ");
            push_decimal(&mut message, self.round as u64);
            push_str(&mut message, " (");
            push_str(&mut message, kind.label());
            push_str(&mut message, " ahead): place all five chipped gems, then choose one to keep.");
        }
        self.message = message;
    }

    /// Starts a fresh run in `mode`: round 1, 20 lives, no gold, new offers,
    /// nothing selected, unpaused at 1x speed.
    pub fn reset_for_mode(&mut self, mode: GameMode)
        requires
            old(self).wf(),
        ensures
            final(self).wf(),
            final(self)@ == reset_run(old(self)@, mode),
    {
        self.mode = mode;
        self.phase = Phase::Build;
        self.round = 1;
        self.lives = STARTING_LIVES;
        self.coins = 0;
        self.pending_enemies = 0;
        self.refresh_offers();
        self.selected_tower = None;
        self.upgrade_source = None;
        self.keep_candidate = None;
        self.shown_aura_ranges.clear();
        self.paused = false;
        self.speed = 1;
        let mut message = String::new();
        push_str(&mut message, mode.name());
        push_str(&mut message, " mode: place all five chipped gems, then choose one to keep.");
        self.message = message;
    }
}

/// Cycling the speed three times from a normal setting (1x, 2x or 3x) gives
/// it back.
pub proof fn law_cycle_speed_period(speed: u8)
    requires
        1 <= speed <= 3,
    ensures
        next_speed(next_speed(next_speed(speed))) == speed,
{
}

/// Pressing the show-range button twice for a tower leaves the set of shown
/// aura rings as it was.
pub proof fn law_toggle_aura_twice(ids: Seq<u64>, id: u64)
    requires
        ids.no_duplicates(),
    ensures
        toggled(toggled(ids, id), id).to_set() == ids.to_set(),
        toggled(ids, id).contains(id) == !ids.contains(id),
{
    if ids.contains(id) {
        let k = choose|k: int| 0 <= k < ids.len() && ids[k] == id;
        let r = ids.remove(k);
        assert(without_aura(ids, id) == r) by {
            let c = choose|c: int| 0 <= c < ids.len() && ids[c] == id;
            assert(c == k) by {
                if c != k {
                    assert(ids[c] == ids[k]);
                }
            }
        }
        assert(!r.contains(id)) by {
            if r.contains(id) {
                let j = choose|j: int| 0 <= j < r.len() && r[j] == id;
                let j2 = if j < k { j } else { j + 1 };
                assert(r[j] == ids[j2]);
            }
        }
        let t = r.push(id);
        assert(t.contains(id)) by {
            assert(t[r.len() as int] == id);
        }
        assert forall|x: u64| t.to_set().contains(x) == ids.to_set().contains(x) by {
            if t.contains(x) {
                let j = choose|j: int| 0 <= j < t.len() && t[j] == x;
                if j < r.len() {
                    let j2 = if j < k { j } else { j + 1 };
                    assert(r[j] == ids[j2]);
                    assert(ids[j2] == x);
                } else {
                    assert(ids[k] == x);
                }
            }
            if ids.contains(x) {
                let j = choose|j: int| 0 <= j < ids.len() && ids[j] == x;
                if j == k {
                    assert(t[r.len() as int] == x);
                } else {
                    let j2 = if j < k { j } else { j - 1 };
                    assert(r[j2] == ids[j]);
                    assert(t[j2] == x);
                }
            }
        }
        assert(t.to_set() =~= ids.to_set());
    } else {
        let t = ids.push(id);
        assert(t.contains(id)) by {
            assert(t[ids.len() as int] == id);
        }
        let k = choose|k: int| 0 <= k < t.len() && t[k] == id;
        assert(k == ids.len()) by {
            if k < ids.len() {
                assert(t[k] == ids[k]);
            }
        }
        assert(without_aura(t, id) =~= ids) by {
            let c = choose|c: int| 0 <= c < t.len() && t[c] == id;
            assert(c == ids.len()) by {
                if c < ids.len() {
                    assert(t[c] == ids[c]);
                }
            }
        }
    }
}

} // verus!
