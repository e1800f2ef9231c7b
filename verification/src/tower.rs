use vstd::prelude::*;

use crate::gem::{
    GemEffect, GemGrade, GemKind, TowerStats, spec_gem_effect, spec_gem_name, spec_grade_name,
    spec_next_grade, spec_chipped_base, stats_of,
};
use crate::recipe::{special_recipe_for_source, spec_recipe_result};
use crate::special::{
    SpecialGem, spec_special_base, spec_special_base_gem, spec_special_effect, spec_special_name,
    spec_special_upgrade, spec_special_upgrade_cost, spec_sprite_grade,
};
use crate::text::{decimal, push_decimal, push_str};

verus! {

/// A placed tower. Damage, range and cooldown are in thousandths; the
/// cooldown is the full reload time.
#[derive(Clone, Copy, PartialEq, Eq, Structural, Debug)]
pub struct Tower {
    pub gem: GemKind,
    pub grade: GemGrade,
    pub special: Option<SpecialGem>,
    pub damage_milli: u64,
    pub range_milli: u32,
    pub cooldown_milli: u32,
    pub black_opal_boosted: bool,
    pub yellow_sapphire_boosted: bool,
}

/// Largest per-hit base damage (thousandths) a tower is allowed to carry.
pub const MAX_TOWER_DAMAGE_MILLI: u64 = 1_000_000_000;

pub open spec fn spec_display_name(t: Tower) -> Seq<char> {
    match t.special {
        Some(s) => spec_special_name(s),
        None => spec_grade_name(t.grade) + " "@ + spec_gem_name(t.gem),
    }
}

pub open spec fn spec_action_label(t: Tower) -> Seq<char> {
    match t.special {
        Some(s) => match spec_special_upgrade(s) {
            Some(next) => match spec_special_upgrade_cost(s) {
                Some(cost) => "Upgrade to "@ + spec_special_name(next) + " ("@ + decimal(cost as nat) + "g)"@,
                None => "Upgrade to "@ + spec_special_name(next),
            },
            None => "Special complete"@,
        },
        None => match spec_recipe_result(t.gem, t.grade) {
            Some(result) => "Combine "@ + spec_special_name(result),
            None => match spec_next_grade(t.grade) {
                Some(next) => "Upgrade to "@ + spec_grade_name(next),
                None => "Perfect grade"@,
            },
        },
    }
}

pub open spec fn spec_tower_effect(t: Tower) -> GemEffect {
    match t.special {
        Some(s) => spec_special_effect(s),
        None => spec_gem_effect(t.gem, t.grade),
    }
}

pub open spec fn spec_attack_damage(t: Tower) -> u64 {
    match t.special {
        Some(_) => t.damage_milli,
        None => (t.damage_milli as int * (match t.grade {
            GemGrade::Chipped => 1000int,
            GemGrade::Flawed => 1450int,
            GemGrade::Regular => 2050int,
            GemGrade::Cut => 2900int,
            GemGrade::Perfect => 4100int,
        }) / 1000) as u64,
    }
}

pub open spec fn spec_range_indicator(t: Tower) -> Option<u32> {
    match spec_tower_effect(t) {
        GemEffect::Haste { .. } => Some(t.range_milli),
        GemEffect::DamageBoost { range_milli, .. } => Some(range_milli),
        GemEffect::SlowSplashBoost { boost_range_milli, .. } => Some(boost_range_milli),
        GemEffect::Tourmaline { armor_range_milli, .. } => Some(armor_range_milli),
        GemEffect::SlowAura { radius_milli, .. } => Some(radius_milli),
        _ => None,
    }
}

/// A basic tower of a gem and grade, with the gem's Chipped stats.
pub open spec fn spec_tower_for_grade(gem: GemKind, grade: GemGrade) -> Tower {
    let stats = stats_of(spec_chipped_base(gem));
    Tower {
        gem,
        grade,
        special: None,
        damage_milli: stats.damage_milli as u64,
        range_milli: stats.range_milli,
        cooldown_milli: stats.cooldown_milli,
        black_opal_boosted: false,
        yellow_sapphire_boosted: false,
    }
}

/// What a tower becomes when it turns into `special`.
pub open spec fn spec_become_special(t: Tower, special: SpecialGem) -> Tower {
    let stats = stats_of(spec_special_base(special));
    Tower {
        gem: spec_special_base_gem(special),
        grade: spec_sprite_grade(special),
        special: Some(special),
        damage_milli: stats.damage_milli as u64,
        range_milli: stats.range_milli,
        cooldown_milli: stats.cooldown_milli,
        black_opal_boosted: false,
        yellow_sapphire_boosted: false,
    }
}

/// A new basic tower of `gem` at `grade`.
pub fn tower_for_grade(gem: GemKind, grade: GemGrade) -> (tower: Tower)
    ensures
        tower == spec_tower_for_grade(gem, grade),
{
    let stats = gem.chipped_stats();
    Tower {
        gem,
        grade,
        special: None,
        damage_milli: stats.damage_milli as u64,
        range_milli: stats.range_milli,
        cooldown_milli: stats.cooldown_milli,
        black_opal_boosted: false,
        yellow_sapphire_boosted: false,
    }
}

impl Tower {
    /// The special's name, or "grade gem".
    pub fn display_name(&self) -> (name: String)
        ensures
            name@ == spec_display_name(*self),
    {
        match self.special {
            Some(special) => {
                let mut s = String::new();
                push_str(&mut s, special.name());
                s
            },
            None => {
                let mut s = String::new();
                push_str(&mut s, self.grade.name());
                push_str(&mut s, " ");
                push_str(&mut s, self.gem.name());
                s
            },
        }
    }

    /// Label of the tower's action button: the special upgrade (with its gold
    /// cost), the recipe it can combine into, the next grade, or that it is
    /// complete.
    pub fn action_label(&self) -> (label: String)
        ensures
            label@ == spec_action_label(*self),
    {
        let mut s = String::new();
        if let Some(special) = self.special {
            match special.upgrade() {
                Some(next) => match special.upgrade_cost() {
                    Some(cost) => {
                        push_str(&mut s, "Upgrade to ");
                        push_str(&mut s, next.name());
                        push_str(&mut s, " (");
                        push_decimal(&mut s, cost as u64);
                        push_str(&mut s, "g)");
                    },
                    None => {
                        push_str(&mut s, "Upgrade to ");
                        push_str(&mut s, next.name());
                    },
                },
                None => {
                    push_str(&mut s, "Special complete");
                },
            }
            return s;
        }
        match special_recipe_for_source(self.gem, self.grade) {
            Some(recipe) => {
                push_str(&mut s, "Combine ");
                push_str(&mut s, recipe.result.name());
            },
            None => match self.grade.next() {
                Some(next) => {
                    push_str(&mut s, "Upgrade to ");
                    push_str(&mut s, next.name());
                },
                None => {
                    push_str(&mut s, "Perfect grade");
                },
            },
        }
        s
    }

    /// Damage per hit (thousandths): a special's own damage, or the base
    /// damage times the grade multiplier (rounded down).
    pub fn attack_damage_milli(&self) -> (damage: u64)
        requires
            self.damage_milli <= MAX_TOWER_DAMAGE_MILLI,
        ensures
            damage == spec_attack_damage(*self),
    {
        if self.special.is_some() {
            self.damage_milli
        } else {
            let m = self.grade.damage_multiplier_milli() as u64;
            assert(self.damage_milli * m <= 1_000_000_000 * 4100) by (nonlinear_arith)
                requires
                    self.damage_milli <= 1_000_000_000,
                    m <= 4100,
            ;
            self.damage_milli * m / 1000
        }
    }

    /// The special's effect, or the gem's effect at the tower's grade.
    pub fn effect(&self) -> (effect: GemEffect)
        ensures
            effect == spec_tower_effect(*self),
    {
        match self.special {
            Some(special) => special.effect(),
            None => self.gem.effect(self.grade),
        }
    }

    /// A basic (non-special) tower of exactly this gem and grade.
    pub fn is_basic(&self, gem: GemKind, grade: GemGrade) -> (b: bool)
        ensures
            b == (self.special is None && self.gem == gem && self.grade == grade),
    {
        self.special.is_none() && self.gem == gem && self.grade == grade
    }

    /// A basic tower below Perfect.
    pub fn can_regular_upgrade(&self) -> (b: bool)
        ensures
            b == (self.special is None && spec_next_grade(self.grade) is Some),
    {
        self.special.is_none() && self.grade.next().is_some()
    }

    /// Radius of the aura ring to draw (thousandths), for towers with an aura.
    pub fn range_indicator_radius_milli(&self) -> (radius: Option<u32>)
        ensures
            radius == spec_range_indicator(*self),
    {
        match self.effect() {
            GemEffect::Haste { .. } => Some(self.range_milli),
            GemEffect::DamageBoost { range_milli, .. } => Some(range_milli),
            GemEffect::SlowSplashBoost { boost_range_milli, .. } => Some(boost_range_milli),
            GemEffect::Tourmaline { armor_range_milli, .. } => Some(armor_range_milli),
            GemEffect::SlowAura { radius_milli, .. } => Some(radius_milli),
            _ => None,
        }
    }

    /// Turns the tower into `special`: it takes the special's base gem,
    /// sprite grade and stats, and loses any damage boosts.
    pub fn become_special(&mut self, special: SpecialGem)
        ensures
            *final(self) == spec_become_special(*old(self), special),
    {
        self.special = Some(special);
        self.gem = special.base_gem();
        self.grade = special.sprite_grade();
        self.black_opal_boosted = false;
        self.yellow_sapphire_boosted = false;
        self.apply_stats(special.stats());
    }

    fn apply_stats(&mut self, stats: TowerStats)
        ensures
            final(self).damage_milli == stats.damage_milli as u64,
            final(self).range_milli == stats.range_milli,
            final(self).cooldown_milli == stats.cooldown_milli,
            final(self).gem == old(self).gem,
            final(self).grade == old(self).grade,
            final(self).special == old(self).special,
            final(self).black_opal_boosted == old(self).black_opal_boosted,
            final(self).yellow_sapphire_boosted == old(self).yellow_sapphire_boosted,
    {
        self.damage_milli = stats.damage_milli as u64;
        self.range_milli = stats.range_milli;
        self.cooldown_milli = stats.cooldown_milli;
    }
}

} // verus!
