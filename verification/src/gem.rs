use vstd::prelude::*;

verus! {

/// The eight basic gems.
#[derive(Clone, Copy, PartialEq, Eq, Structural, Debug, Hash)]
pub enum GemKind {
    Ruby,
    Sapphire,
    Topaz,
    Emerald,
    Amethyst,
    Diamond,
    Aquamarine,
    Opal,
}

/// Upgrade grades, weakest first.
#[derive(Clone, Copy, PartialEq, Eq, Structural, Debug, Hash)]
pub enum GemGrade {
    Chipped,
    Flawed,
    Regular,
    Cut,
    Perfect,
}

/// Base tower stats. All three are in thousandths (damage per hit, range in
/// world units, cooldown in seconds); the range already includes the 1.5x
/// tower range multiplier.
#[derive(Clone, Copy, PartialEq, Eq, Structural, Debug)]
pub struct TowerStats {
    pub damage_milli: u32,
    pub range_milli: u32,
    pub cooldown_milli: u32,
}

/// The tower range multiplier 1.5, applied as 3/2.
pub open spec fn spec_scaled_range(range_milli: u32) -> u32 {
    (range_milli as int * 3 / 2) as u32
}

impl TowerStats {
    /// Stats from an unscaled range; the range is multiplied by 1.5.
    pub fn new(damage_milli: u32, range_milli: u32, cooldown_milli: u32) -> (stats: TowerStats)
        requires
            range_milli <= 1_000_000,
        ensures
            stats == (TowerStats { damage_milli, range_milli: spec_scaled_range(range_milli), cooldown_milli }),
    {
        TowerStats { damage_milli, range_milli: TowerStats::scaled_range(range_milli), cooldown_milli }
    }

    /// `range` times the tower range multiplier 1.5.
    pub fn scaled_range(range_milli: u32) -> (scaled: u32)
        requires
            range_milli <= 1_000_000,
        ensures
            scaled == spec_scaled_range(range_milli),
    {
        range_milli * 3 / 2
    }
}

pub open spec fn spec_tier(grade: GemGrade) -> u32 {
    match grade {
        GemGrade::Chipped => 0,
        GemGrade::Flawed => 1,
        GemGrade::Regular => 2,
        GemGrade::Cut => 3,
        GemGrade::Perfect => 4,
    }
}

pub open spec fn spec_next_grade(grade: GemGrade) -> Option<GemGrade> {
    match grade {
        GemGrade::Chipped => Some(GemGrade::Flawed),
        GemGrade::Flawed => Some(GemGrade::Regular),
        GemGrade::Regular => Some(GemGrade::Cut),
        GemGrade::Cut => Some(GemGrade::Perfect),
        GemGrade::Perfect => None,
    }
}

pub open spec fn spec_grade_name(grade: GemGrade) -> Seq<char> {
    match grade {
        GemGrade::Chipped => "Chipped"@,
        GemGrade::Flawed => "Flawed"@,
        GemGrade::Regular => "Regular"@,
        GemGrade::Cut => "Cut"@,
        GemGrade::Perfect => "Perfect"@,
    }
}

impl GemGrade {
    pub fn name(self) -> (name: &'static str)
        ensures
            name@ == spec_grade_name(self),
    {
        match self {
            GemGrade::Chipped => "Chipped",
            GemGrade::Flawed => "Flawed",
            GemGrade::Regular => "Regular",
            GemGrade::Cut => "Cut",
            GemGrade::Perfect => "Perfect",
        }
    }

    /// Position on the grade ladder, 0 (Chipped) through 4 (Perfect).
    pub fn tier(self) -> (tier: u32)
        ensures
            tier == spec_tier(self),
            tier <= 4,
    {
        match self {
            GemGrade::Chipped => 0,
            GemGrade::Flawed => 1,
            GemGrade::Regular => 2,
            GemGrade::Cut => 3,
            GemGrade::Perfect => 4,
        }
    }

    /// The grade one step up, or `None` at Perfect.
    pub fn next(self) -> (next: Option<GemGrade>)
        ensures
            next == spec_next_grade(self),
    {
        match self {
            GemGrade::Chipped => Some(GemGrade::Flawed),
            GemGrade::Flawed => Some(GemGrade::Regular),
            GemGrade::Regular => Some(GemGrade::Cut),
            GemGrade::Cut => Some(GemGrade::Perfect),
            GemGrade::Perfect => None,
        }
    }

    /// Damage multiplier of the grade, in thousandths (1.0, 1.45, 2.05, 2.9,
    /// 4.1).
    pub fn damage_multiplier_milli(self) -> (m: u32)
        ensures
            m == (match self {
                GemGrade::Chipped => 1000u32,
                GemGrade::Flawed => 1450u32,
                GemGrade::Regular => 2050u32,
                GemGrade::Cut => 2900u32,
                GemGrade::Perfect => 4100u32,
            }),
    {
        match self {
            GemGrade::Chipped => 1000,
            GemGrade::Flawed => 1450,
            GemGrade::Regular => 2050,
            GemGrade::Cut => 2900,
            GemGrade::Perfect => 4100,
        }
    }

    /// Sprite size multiplier of the grade, in thousandths (1.0, 1.08, 1.16,
    /// 1.24, 1.34).
    pub fn size_multiplier_milli(self) -> (m: u32)
        ensures
            m == (match self {
                GemGrade::Chipped => 1000u32,
                GemGrade::Flawed => 1080u32,
                GemGrade::Regular => 1160u32,
                GemGrade::Cut => 1240u32,
                GemGrade::Perfect => 1340u32,
            }),
    {
        match self {
            GemGrade::Chipped => 1000,
            GemGrade::Flawed => 1080,
            GemGrade::Regular => 1160,
            GemGrade::Cut => 1240,
            GemGrade::Perfect => 1340,
        }
    }
}

/// The grades in ladder order.
pub open spec fn spec_grade_ladder() -> Seq<GemGrade> {
    seq![GemGrade::Chipped, GemGrade::Flawed, GemGrade::Regular, GemGrade::Cut, GemGrade::Perfect]
}

pub fn grade_ladder() -> (ladder: Vec<GemGrade>)
    ensures
        ladder@ == spec_grade_ladder(),
{
    let v = vec![GemGrade::Chipped, GemGrade::Flawed, GemGrade::Regular, GemGrade::Cut, GemGrade::Perfect];
    assert(v@ =~= spec_grade_ladder());
    v
}

/// Climbing the ladder: each grade but Perfect has a next grade one tier up,
/// and following `next` from Chipped visits the ladder in order.
pub proof fn law_grade_ladder(grade: GemGrade)
    ensures
        spec_next_grade(grade) matches Some(n) ==> spec_tier(n) == spec_tier(grade) + 1,
        spec_next_grade(grade) is None <==> grade == GemGrade::Perfect,
        spec_grade_ladder()[spec_tier(grade) as int] == grade,
        spec_tier(grade) < 5,
{
}

/// The basic gems in offer order.
pub open spec fn spec_gem_kinds() -> Seq<GemKind> {
    seq![GemKind::Ruby, GemKind::Sapphire, GemKind::Topaz, GemKind::Emerald, GemKind::Amethyst,
        GemKind::Diamond, GemKind::Aquamarine, GemKind::Opal]
}

/// The gem at position `i` of the offer table.
pub fn gem_kind_at(i: usize) -> (gem: GemKind)
    requires
        i < 8,
    ensures
        gem == spec_gem_kinds()[i as int],
{
    if i == 0 { GemKind::Ruby } else if i == 1 { GemKind::Sapphire } else if i == 2 { GemKind::Topaz }
    else if i == 3 { GemKind::Emerald } else if i == 4 { GemKind::Amethyst } else if i == 5 { GemKind::Diamond }
    else if i == 6 { GemKind::Aquamarine } else { GemKind::Opal }
}

pub open spec fn spec_gem_name(gem: GemKind) -> Seq<char> {
    match gem {
        GemKind::Ruby => "Ruby"@,
        GemKind::Sapphire => "Sapphire"@,
        GemKind::Topaz => "Topaz"@,
        GemKind::Emerald => "Emerald"@,
        GemKind::Amethyst => "Amethyst"@,
        GemKind::Diamond => "Diamond"@,
        GemKind::Aquamarine => "Aquamarine"@,
        GemKind::Opal => "Opal"@,
    }
}

/// Chipped stats before the range multiplier: (damage, range, cooldown) in
/// thousandths.
pub open spec fn spec_chipped_base(gem: GemKind) -> (u32, u32, u32) {
    match gem {
        GemKind::Ruby => (24000, 130000, 1000),
        GemKind::Sapphire => (7000, 180000, 800),
        GemKind::Topaz => (7000, 118000, 500),
        GemKind::Emerald => (6000, 128000, 1000),
        GemKind::Amethyst => (20000, 200000, 1000),
        GemKind::Diamond => (15000, 118000, 850),
        GemKind::Aquamarine => (9000, 78000, 220),
        GemKind::Opal => (6000, 150000, 1000),
    }
}

pub open spec fn stats_of(base: (u32, u32, u32)) -> TowerStats {
    TowerStats { damage_milli: base.0, range_milli: spec_scaled_range(base.1), cooldown_milli: base.2 }
}

pub open spec fn max_u32(a: u32, b: u32) -> u32 {
    if a >= b { a } else { b }
}

/// The on-hit behaviour of a basic gem at a grade.
pub open spec fn spec_gem_effect(gem: GemKind, grade: GemGrade) -> GemEffect {
    let t = spec_tier(grade);
    match gem {
        GemKind::Ruby => GemEffect::Splash { radius_milli: 50000, damage_fraction_milli: 500 },
        GemKind::Sapphire => GemEffect::Slow {
            factor_milli: max_u32((800 - 30 * t) as u32, 600),
            duration_milli: 1500,
        },
        GemKind::Topaz => GemEffect::Multi { targets: (3 + t) as u32, damage_fraction_milli: 800 },
        GemKind::Emerald => GemEffect::Poison {
            dps_per_stack_milli: (4000 + 1000 * t) as u32,
            duration_milli: 3000,
            max_stacks: 5,
            slow_factor_milli: max_u32((850 - 20 * t) as u32, 700),
        },
        GemKind::Amethyst => GemEffect::Favored { air: true, multiplier_milli: (2000 + 250 * t) as u32 },
        GemKind::Diamond => GemEffect::Favored { air: false, multiplier_milli: (1500 + 150 * t) as u32 },
        GemKind::Aquamarine => GemEffect::NoEffect,
        GemKind::Opal => GemEffect::Haste { cooldown_reduction_milli: (150 + 50 * t) as u32 },
    }
}

/// Each gem keeps its role at every grade: Amethyst is the anti-air gem
/// (at least double damage against flying enemies), Diamond the anti-ground
/// one (at least one and a half times against ground enemies), Ruby
/// splashes, Sapphire slows, Topaz strikes at least three enemies, Emerald
/// poisons, Opal hastes nearby towers and Aquamarine has no effect.
pub proof fn law_gem_roles(gem: GemKind, grade: GemGrade)
    ensures
        gem == GemKind::Amethyst ==> (spec_gem_effect(gem, grade) matches GemEffect::Favored { air, multiplier_milli }
            && air && multiplier_milli >= 2000),
        gem == GemKind::Diamond ==> (spec_gem_effect(gem, grade) matches GemEffect::Favored { air, multiplier_milli }
            && !air && multiplier_milli >= 1500),
        gem == GemKind::Ruby ==> spec_gem_effect(gem, grade) is Splash,
        gem == GemKind::Sapphire ==> (spec_gem_effect(gem, grade) matches GemEffect::Slow { factor_milli, .. }
            && factor_milli < 1000),
        gem == GemKind::Topaz ==> (spec_gem_effect(gem, grade) matches GemEffect::Multi { targets, .. } && targets >= 3),
        gem == GemKind::Emerald ==> spec_gem_effect(gem, grade) is Poison,
        gem == GemKind::Opal ==> spec_gem_effect(gem, grade) is Haste,
        gem == GemKind::Aquamarine ==> spec_gem_effect(gem, grade) is NoEffect,
{
}

/// A higher grade never weakens a gem's effect: favoured-target multipliers,
/// extra targets, poison damage and haste only grow, and slows only deepen.
pub proof fn law_gem_effect_grows_with_grade(gem: GemKind, lower: GemGrade, higher: GemGrade)
    requires
        spec_tier(lower) <= spec_tier(higher),
    ensures
        ({
            let a = spec_gem_effect(gem, lower);
            let b = spec_gem_effect(gem, higher);
            &&& a matches GemEffect::Favored { multiplier_milli: m1, .. } ==> (b matches GemEffect::Favored { multiplier_milli: m2, .. } && m1 <= m2)
            &&& a matches GemEffect::Multi { targets: t1, .. } ==> (b matches GemEffect::Multi { targets: t2, .. } && t1 <= t2)
            &&& a matches GemEffect::Poison { dps_per_stack_milli: p1, .. } ==> (b matches GemEffect::Poison { dps_per_stack_milli: p2, .. } && p1 <= p2)
            &&& a matches GemEffect::Haste { cooldown_reduction_milli: h1 } ==> (b matches GemEffect::Haste { cooldown_reduction_milli: h2 } && h1 <= h2)
            &&& a matches GemEffect::Slow { factor_milli: f1, .. } ==> (b matches GemEffect::Slow { factor_milli: f2, .. } && f2 <= f1)
        }),
{
}

impl GemKind {
    pub fn name(self) -> (name: &'static str)
        ensures
            name@ == spec_gem_name(self),
    {
        match self {
            GemKind::Ruby => "Ruby",
            GemKind::Sapphire => "Sapphire",
            GemKind::Topaz => "Topaz",
            GemKind::Emerald => "Emerald",
            GemKind::Amethyst => "Amethyst",
            GemKind::Diamond => "Diamond",
            GemKind::Aquamarine => "Aquamarine",
            GemKind::Opal => "Opal",
        }
    }

    /// Chipped tower stats (range multiplier applied).
    pub fn chipped_stats(self) -> (stats: TowerStats)
        ensures
            stats == stats_of(spec_chipped_base(self)),
    {
        match self {
            GemKind::Ruby => TowerStats::new(24000, 130000, 1000),
            GemKind::Sapphire => TowerStats::new(7000, 180000, 800),
            GemKind::Topaz => TowerStats::new(7000, 118000, 500),
            GemKind::Emerald => TowerStats::new(6000, 128000, 1000),
            GemKind::Amethyst => TowerStats::new(20000, 200000, 1000),
            GemKind::Diamond => TowerStats::new(15000, 118000, 850),
            GemKind::Aquamarine => TowerStats::new(9000, 78000, 220),
            GemKind::Opal => TowerStats::new(6000, 150000, 1000),
        }
    }

    /// The special on-hit behaviour of this gem, scaled by the tower's grade.
    pub fn effect(self, grade: GemGrade) -> (effect: GemEffect)
        ensures
            effect == spec_gem_effect(self, grade),
    {
        let t = grade.tier();
        match self {
            GemKind::Ruby => GemEffect::Splash { radius_milli: 50000, damage_fraction_milli: 500 },
            GemKind::Sapphire => {
                let f = 800 - 30 * t;
                GemEffect::Slow { factor_milli: if f >= 600 { f } else { 600 }, duration_milli: 1500 }
            },
            GemKind::Topaz => GemEffect::Multi { targets: 3 + t, damage_fraction_milli: 800 },
            GemKind::Emerald => {
                let f = 850 - 20 * t;
                GemEffect::Poison {
                    dps_per_stack_milli: 4000 + 1000 * t,
                    duration_milli: 3000,
                    max_stacks: 5,
                    slow_factor_milli: if f >= 700 { f } else { 700 },
                }
            },
            GemKind::Amethyst => GemEffect::Favored { air: true, multiplier_milli: 2000 + 250 * t },
            GemKind::Diamond => GemEffect::Favored { air: false, multiplier_milli: 1500 + 150 * t },
            GemKind::Aquamarine => GemEffect::NoEffect,
            GemKind::Opal => GemEffect::Haste { cooldown_reduction_milli: 150 + 50 * t },
        }
    }
}

/// Behaviour layered on top of a tower's base damage. Fractions, factors,
/// multipliers, chances, distances, durations and damage rates are in
/// thousandths.
#[derive(Clone, Copy, PartialEq, Eq, Structural, Debug)]
pub enum GemEffect {
    NoEffect,
    /// Multiplies enemy speed by `factor` for `duration` seconds.
    Slow { factor_milli: u32, duration_milli: u32 },
    /// Deals `damage_fraction` of the hit to other enemies within `radius`.
    Splash { radius_milli: u32, damage_fraction_milli: u32 },
    /// Splash damage that also slows the primary and splash targets.
    SlowSplash { radius_milli: u32, damage_fraction_milli: u32, slow_factor_milli: u32, slow_duration_milli: u32 },
    /// Splash and slow plus a one-time damage boost to nearby towers on upgrade.
    SlowSplashBoost {
        radius_milli: u32,
        damage_fraction_milli: u32,
        slow_factor_milli: u32,
        slow_duration_milli: u32,
        damage_bonus_milli: u32,
        boost_range_milli: u32,
    },
    /// Stacking slowing poison.
    Poison { dps_per_stack_milli: u32, duration_milli: u32, max_stacks: u32, slow_factor_milli: u32 },
    /// Strikes up to `targets` enemies, the extras taking `damage_fraction`.
    Multi { targets: u32, damage_fraction_milli: u32 },
    /// Deals `damage_fraction` of the hit to every other enemy in range.
    Area { damage_fraction_milli: u32 },
    /// `multiplier` damage against air (`air`) or ground enemies.
    Favored { air: bool, multiplier_milli: u32 },
    /// Support aura reducing the cooldown of nearby towers.
    Haste { cooldown_reduction_milli: u32 },
    /// One-time damage boost to towers within `range` on upgrade.
    DamageBoost { damage_bonus_milli: u32, range_milli: u32 },
    /// Chance of a larger hit and chance of a burn.
    AncientBlood {
        triple_chance_milli: u32,
        triple_multiplier_milli: u32,
        burn_chance_milli: u32,
        burn_dps_milli: u32,
        burn_duration_milli: u32,
    },
    /// Chance of a larger hit and a timed armor reduction.
    ArmorBreak { crit_chance_milli: u32, crit_multiplier_milli: u32, armor_reduction_milli: u32, duration_milli: u32 },
    /// Slowing poison with optional crit, stun and bonus-gold rolls.
    JadePoison {
        dps_milli: u32,
        duration_milli: u32,
        slow_factor_milli: u32,
        crit_chance_milli: u32,
        crit_multiplier_milli: u32,
        stun_chance_milli: u32,
        stun_duration_milli: u32,
        gold_chance_milli: u32,
    },
    /// Critical hits, optionally only against ground enemies.
    Critical { chance_milli: u32, multiplier_milli: u32, ground_only: bool },
    /// Air-only attacker reducing armor of flying enemies in range.
    AirArmorAura { armor_reduction_milli: u32 },
    /// Direct attack, damage-over-time proc, and ground armor aura.
    Tourmaline {
        proc_chance_milli: u32,
        proc_total_damage_milli: u32,
        proc_duration_milli: u32,
        armor_reduction_milli: u32,
        armor_range_milli: u32,
    },
    /// Persistent slow aura alongside the direct attack.
    SlowAura { factor_milli: u32, radius_milli: u32, duration_milli: u32, ignores_opals: bool },
    /// Continuous damage to every enemy in range.
    DamageAura { dps_milli: u32 },
}

impl GemEffect {
    /// Everything but a damage aura attacks a target directly.
    pub fn uses_direct_attack(self) -> (b: bool)
        ensures
            b == !(self is DamageAura),
    {
        match self {
            GemEffect::DamageAura { .. } => false,
            _ => true,
        }
    }

    /// Damage auras, and slow auras that say so, are not sped up or boosted
    /// by opals.
    pub fn ignores_opal_effects(self) -> (b: bool)
        ensures
            b == (self is DamageAura || (self matches GemEffect::SlowAura { ignores_opals, .. } && ignores_opals)),
    {
        match self {
            GemEffect::DamageAura { .. } => true,
            GemEffect::SlowAura { ignores_opals, .. } => ignores_opals,
            _ => false,
        }
    }

    /// Ground-only criticals cannot target flyers; air armor auras target
    /// only flyers; everything else targets both.
    pub fn can_target(self, flying: bool) -> (b: bool)
        ensures
            b == (match self {
                GemEffect::Critical { ground_only, .. } => !ground_only || !flying,
                GemEffect::AirArmorAura { .. } => flying,
                _ => true,
            }),
    {
        match self {
            GemEffect::Critical { ground_only, .. } => !ground_only || !flying,
            GemEffect::AirArmorAura { .. } => flying,
            _ => true,
        }
    }
}

} // verus!
