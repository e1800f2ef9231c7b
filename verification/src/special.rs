use vstd::prelude::*;

use crate::gem::{GemEffect, GemGrade, GemKind, TowerStats, spec_gem_name, spec_grade_name, spec_scaled_range, stats_of};

verus! {

pub const BLACK_OPAL_DAMAGE_BOOST_MILLI: u32 = 400;
pub const GOLD_ARMOR_DURATION_MILLI: u32 = 5000;
pub const SILVER_SPLASH_RADIUS_MILLI: u32 = 36000;
pub const SILVER_SLOW_FACTOR_MILLI: u32 = 800;
pub const SILVER_SLOW_DURATION_MILLI: u32 = 5000;
pub const TOURMALINE_PROC_CHANCE_MILLI: u32 = 200;
pub const TOURMALINE_PROC_DURATION_MILLI: u32 = 3000;
pub const URANIUM_SLOW_FACTOR_MILLI: u32 = 500;
pub const URANIUM_SLOW_DURATION_MILLI: u32 = 250;
pub const YELLOW_SAPPHIRE_SPLASH_RADIUS_MILLI: u32 = 57000;
pub const YELLOW_SAPPHIRE_SLOW_DURATION_MILLI: u32 = 3000;
pub const STAR_YELLOW_SAPPHIRE_DAMAGE_BOOST_MILLI: u32 = 50;

pub const BLACK_OPAL_UPGRADE_COST: u32 = 250;
pub const BLOOD_STONE_UPGRADE_COST: u32 = 250;
pub const GOLD_UPGRADE_COST: u32 = 210;
pub const ASIAN_JADE_UPGRADE_COST: u32 = 45;
pub const LUCKY_ASIAN_JADE_UPGRADE_COST: u32 = 250;
pub const VIVID_MALACHITE_UPGRADE_COST: u32 = 25;
pub const MIGHTY_MALACHITE_UPGRADE_COST: u32 = 280;
pub const GREAT_PINK_DIAMOND_UPGRADE_COST: u32 = 175;
pub const RED_CRYSTAL_FACET_UPGRADE_COST: u32 = 100;
pub const ROSE_QUARTZ_CRYSTAL_UPGRADE_COST: u32 = 150;
pub const STERLING_SILVER_UPGRADE_COST: u32 = 25;
pub const SILVER_KNIGHT_UPGRADE_COST: u32 = 300;
pub const BLOOD_STAR_UPGRADE_COST: u32 = 30;
pub const FIRE_STAR_UPGRADE_COST: u32 = 290;
pub const PARAIBA_TOURMALINE_UPGRADE_COST: u32 = 350;
pub const URANIUM_235_UPGRADE_COST: u32 = 135;
pub const STAR_YELLOW_SAPPHIRE_UPGRADE_COST: u32 = 60;

/// Special gems made by recipe and their upgrades.
#[derive(Clone, Copy, PartialEq, Eq, Structural, Debug, Hash)]
pub enum SpecialGem {
    BlackOpal,
    MysticBlackOpal,
    BloodStone,
    AncientBloodStone,
    Gold,
    EgyptianGold,
    Jade,
    AsianJade,
    LuckyAsianJade,
    Malachite,
    VividMalachite,
    MightyMalachite,
    PinkDiamond,
    GreatPinkDiamond,
    RedCrystal,
    RedCrystalFacet,
    RoseQuartzCrystal,
    Silver,
    SterlingSilver,
    SilverKnight,
    StarRuby,
    BloodStar,
    FireStar,
    Tourmaline,
    ParaibaTourmaline,
    Uranium238,
    Uranium235,
    YellowSapphire,
    StarYellowSapphire,
}

pub open spec fn spec_special_name(special: SpecialGem) -> Seq<char> {
    match special {
        SpecialGem::BlackOpal => "Black Opal"@,
        SpecialGem::MysticBlackOpal => "Mystic Black Opal"@,
        SpecialGem::BloodStone => "Blood Stone"@,
        SpecialGem::AncientBloodStone => "Ancient Blood Stone"@,
        SpecialGem::Gold => "Gold"@,
        SpecialGem::EgyptianGold => "Egyptian Gold"@,
        SpecialGem::Jade => "Jade"@,
        SpecialGem::AsianJade => "Asian Jade"@,
        SpecialGem::LuckyAsianJade => "Lucky Asian Jade"@,
        SpecialGem::Malachite => "Malachite"@,
        SpecialGem::VividMalachite => "Vivid Malachite"@,
        SpecialGem::MightyMalachite => "Mighty Malachite"@,
        SpecialGem::PinkDiamond => "Pink Diamond"@,
        SpecialGem::GreatPinkDiamond => "Great Pink Diamond"@,
        SpecialGem::RedCrystal => "Red Crystal"@,
        SpecialGem::RedCrystalFacet => "Red Crystal Facet"@,
        SpecialGem::RoseQuartzCrystal => "Rose Quartz Crystal"@,
        SpecialGem::Silver => "Silver"@,
        SpecialGem::SterlingSilver => "Sterling Silver"@,
        SpecialGem::SilverKnight => "Silver Knight"@,
        SpecialGem::StarRuby => "Star Ruby"@,
        SpecialGem::BloodStar => "Blood Star"@,
        SpecialGem::FireStar => "Fire Star"@,
        SpecialGem::Tourmaline => "Tourmaline"@,
        SpecialGem::ParaibaTourmaline => "Paraiba Tourmaline"@,
        SpecialGem::Uranium238 => "Uranium 238"@,
        SpecialGem::Uranium235 => "Uranium 235"@,
        SpecialGem::YellowSapphire => "Yellow Sapphire"@,
        SpecialGem::StarYellowSapphire => "Star Yellow Sapphire"@,
    }
}

/// Stats before the range multiplier: (damage, range, cooldown) in thousandths.
pub open spec fn spec_special_base(special: SpecialGem) -> (u32, u32, u32) {
    match special {
        SpecialGem::BlackOpal => (24500, 114000, 1000),
        SpecialGem::MysticBlackOpal => (70000, 143000, 1000),
        SpecialGem::BloodStone => (68000, 100000, 500),
        SpecialGem::AncientBloodStone => (200000, 100000, 800),
        SpecialGem::Gold => (175000, 114000, 1000),
        SpecialGem::EgyptianGold => (180000, 114000, 750),
        SpecialGem::Jade => (32500, 114000, 500),
        SpecialGem::AsianJade => (50000, 114000, 500),
        SpecialGem::LuckyAsianJade => (55000, 121000, 350),
        SpecialGem::Malachite => (6000, 107000, 500),
        SpecialGem::VividMalachite => (11000, 114000, 500),
        SpecialGem::MightyMalachite => (45000, 114000, 550),
        SpecialGem::PinkDiamond => (162500, 114000, 750),
        SpecialGem::GreatPinkDiamond => (200000, 121000, 650),
        SpecialGem::RedCrystal => (62500, 186000, 800),
        SpecialGem::RedCrystalFacet => (87500, 200000, 800),
        SpecialGem::RoseQuartzCrystal => (112500, 214000, 800),
        SpecialGem::Silver => (20500, 78000, 1000),
        SpecialGem::SterlingSilver => (40000, 92000, 1000),
        SpecialGem::SilverKnight => (150000, 107000, 1000),
        SpecialGem::StarRuby => (40000, 38000, 1000),
        SpecialGem::BloodStar => (50000, 71000, 1000),
        SpecialGem::FireStar => (130000, 85000, 1000),
        SpecialGem::Tourmaline => (205000, 121000, 750),
        SpecialGem::ParaibaTourmaline => (225000, 125000, 750),
        SpecialGem::Uranium238 => (47000, 64000, 250),
        SpecialGem::Uranium235 => (64000, 85000, 250),
        SpecialGem::YellowSapphire => (100000, 125000, 1250),
        SpecialGem::StarYellowSapphire => (220000, 132000, 1250),
    }
}

pub open spec fn spec_special_effect(special: SpecialGem) -> GemEffect {
    match special {
        SpecialGem::BlackOpal => GemEffect::NoEffect,
        SpecialGem::MysticBlackOpal => GemEffect::DamageBoost { damage_bonus_milli: BLACK_OPAL_DAMAGE_BOOST_MILLI, range_milli: 256500 },
        SpecialGem::BloodStone => GemEffect::Area { damage_fraction_milli: 1000 },
        SpecialGem::AncientBloodStone => GemEffect::AncientBlood { triple_chance_milli: 150, triple_multiplier_milli: 3000, burn_chance_milli: 100, burn_dps_milli: 500000, burn_duration_milli: 5000 },
        SpecialGem::Gold => GemEffect::ArmorBreak { crit_chance_milli: 250, crit_multiplier_milli: 2000, armor_reduction_milli: 5000, duration_milli: GOLD_ARMOR_DURATION_MILLI },
        SpecialGem::EgyptianGold => GemEffect::ArmorBreak { crit_chance_milli: 300, crit_multiplier_milli: 2000, armor_reduction_milli: 8000, duration_milli: GOLD_ARMOR_DURATION_MILLI },
        SpecialGem::Jade => GemEffect::JadePoison { dps_milli: 5000, duration_milli: 2000, slow_factor_milli: 500, crit_chance_milli: 0, crit_multiplier_milli: 1000, stun_chance_milli: 0, stun_duration_milli: 0, gold_chance_milli: 0 },
        SpecialGem::AsianJade => GemEffect::JadePoison { dps_milli: 10000, duration_milli: 3000, slow_factor_milli: 500, crit_chance_milli: 0, crit_multiplier_milli: 1000, stun_chance_milli: 0, stun_duration_milli: 0, gold_chance_milli: 0 },
        SpecialGem::LuckyAsianJade => GemEffect::JadePoison { dps_milli: 10000, duration_milli: 4000, slow_factor_milli: 500, crit_chance_milli: 50, crit_multiplier_milli: 4000, stun_chance_milli: 10, stun_duration_milli: 2000, gold_chance_milli: 10 },
        SpecialGem::Malachite => GemEffect::Multi { targets: 3, damage_fraction_milli: 1000 },
        SpecialGem::VividMalachite => GemEffect::Multi { targets: 4, damage_fraction_milli: 1000 },
        SpecialGem::MightyMalachite => GemEffect::Area { damage_fraction_milli: 1000 },
        SpecialGem::PinkDiamond => GemEffect::Critical { chance_milli: 100, multiplier_milli: 5000, ground_only: true },
        SpecialGem::GreatPinkDiamond => GemEffect::Critical { chance_milli: 100, multiplier_milli: 8000, ground_only: true },
        SpecialGem::RedCrystal => GemEffect::AirArmorAura { armor_reduction_milli: 4000 },
        SpecialGem::RedCrystalFacet => GemEffect::AirArmorAura { armor_reduction_milli: 5000 },
        SpecialGem::RoseQuartzCrystal => GemEffect::AirArmorAura { armor_reduction_milli: 6000 },
        SpecialGem::Silver => GemEffect::SlowSplash { radius_milli: SILVER_SPLASH_RADIUS_MILLI, damage_fraction_milli: 1000, slow_factor_milli: SILVER_SLOW_FACTOR_MILLI, slow_duration_milli: SILVER_SLOW_DURATION_MILLI },
        SpecialGem::SterlingSilver => GemEffect::SlowSplash { radius_milli: SILVER_SPLASH_RADIUS_MILLI, damage_fraction_milli: 1000, slow_factor_milli: SILVER_SLOW_FACTOR_MILLI, slow_duration_milli: SILVER_SLOW_DURATION_MILLI },
        SpecialGem::SilverKnight => GemEffect::SlowSplash { radius_milli: SILVER_SPLASH_RADIUS_MILLI, damage_fraction_milli: 1000, slow_factor_milli: SILVER_SLOW_FACTOR_MILLI, slow_duration_milli: SILVER_SLOW_DURATION_MILLI },
        SpecialGem::StarRuby => GemEffect::DamageAura { dps_milli: 40000 },
        SpecialGem::BloodStar => GemEffect::DamageAura { dps_milli: 50000 },
        SpecialGem::FireStar => GemEffect::DamageAura { dps_milli: 130000 },
        SpecialGem::Tourmaline => GemEffect::Tourmaline { proc_chance_milli: TOURMALINE_PROC_CHANCE_MILLI, proc_total_damage_milli: 200000, proc_duration_milli: TOURMALINE_PROC_DURATION_MILLI, armor_reduction_milli: 4000, armor_range_milli: 128700 },
        SpecialGem::ParaibaTourmaline => GemEffect::Tourmaline { proc_chance_milli: TOURMALINE_PROC_CHANCE_MILLI, proc_total_damage_milli: 250000, proc_duration_milli: TOURMALINE_PROC_DURATION_MILLI, armor_reduction_milli: 6000, armor_range_milli: 139500 },
        SpecialGem::Uranium238 => GemEffect::SlowAura { factor_milli: URANIUM_SLOW_FACTOR_MILLI, radius_milli: 96000, duration_milli: URANIUM_SLOW_DURATION_MILLI, ignores_opals: true },
        SpecialGem::Uranium235 => GemEffect::SlowAura { factor_milli: URANIUM_SLOW_FACTOR_MILLI, radius_milli: 96000, duration_milli: URANIUM_SLOW_DURATION_MILLI, ignores_opals: true },
        SpecialGem::YellowSapphire => GemEffect::SlowSplash { radius_milli: YELLOW_SAPPHIRE_SPLASH_RADIUS_MILLI, damage_fraction_milli: 1000, slow_factor_milli: 700, slow_duration_milli: YELLOW_SAPPHIRE_SLOW_DURATION_MILLI },
        SpecialGem::StarYellowSapphire => GemEffect::SlowSplashBoost { radius_milli: YELLOW_SAPPHIRE_SPLASH_RADIUS_MILLI, damage_fraction_milli: 1000, slow_factor_milli: 600, slow_duration_milli: YELLOW_SAPPHIRE_SLOW_DURATION_MILLI, damage_bonus_milli: STAR_YELLOW_SAPPHIRE_DAMAGE_BOOST_MILLI, boost_range_milli: 256500 },
    }
}

pub open spec fn spec_special_upgrade(special: SpecialGem) -> Option<SpecialGem> {
    match special {
        SpecialGem::BlackOpal => Some(SpecialGem::MysticBlackOpal),
        SpecialGem::MysticBlackOpal => None,
        SpecialGem::BloodStone => Some(SpecialGem::AncientBloodStone),
        SpecialGem::AncientBloodStone => None,
        SpecialGem::Gold => Some(SpecialGem::EgyptianGold),
        SpecialGem::EgyptianGold => None,
        SpecialGem::Jade => Some(SpecialGem::AsianJade),
        SpecialGem::AsianJade => Some(SpecialGem::LuckyAsianJade),
        SpecialGem::LuckyAsianJade => None,
        SpecialGem::Malachite => Some(SpecialGem::VividMalachite),
        SpecialGem::VividMalachite => Some(SpecialGem::MightyMalachite),
        SpecialGem::MightyMalachite => None,
        SpecialGem::PinkDiamond => Some(SpecialGem::GreatPinkDiamond),
        SpecialGem::GreatPinkDiamond => None,
        SpecialGem::RedCrystal => Some(SpecialGem::RedCrystalFacet),
        SpecialGem::RedCrystalFacet => Some(SpecialGem::RoseQuartzCrystal),
        SpecialGem::RoseQuartzCrystal => None,
        SpecialGem::Silver => Some(SpecialGem::SterlingSilver),
        SpecialGem::SterlingSilver => Some(SpecialGem::SilverKnight),
        SpecialGem::SilverKnight => None,
        SpecialGem::StarRuby => Some(SpecialGem::BloodStar),
        SpecialGem::BloodStar => Some(SpecialGem::FireStar),
        SpecialGem::FireStar => None,
        SpecialGem::Tourmaline => Some(SpecialGem::ParaibaTourmaline),
        SpecialGem::ParaibaTourmaline => None,
        SpecialGem::Uranium238 => Some(SpecialGem::Uranium235),
        SpecialGem::Uranium235 => None,
        SpecialGem::YellowSapphire => Some(SpecialGem::StarYellowSapphire),
        SpecialGem::StarYellowSapphire => None,
    }
}

pub open spec fn spec_special_upgrade_cost(special: SpecialGem) -> Option<u32> {
    match special {
        SpecialGem::BlackOpal => Some(BLACK_OPAL_UPGRADE_COST),
        SpecialGem::MysticBlackOpal => None,
        SpecialGem::BloodStone => Some(BLOOD_STONE_UPGRADE_COST),
        SpecialGem::AncientBloodStone => None,
        SpecialGem::Gold => Some(GOLD_UPGRADE_COST),
        SpecialGem::EgyptianGold => None,
        SpecialGem::Jade => Some(ASIAN_JADE_UPGRADE_COST),
        SpecialGem::AsianJade => Some(LUCKY_ASIAN_JADE_UPGRADE_COST),
        SpecialGem::LuckyAsianJade => None,
        SpecialGem::Malachite => Some(VIVID_MALACHITE_UPGRADE_COST),
        SpecialGem::VividMalachite => Some(MIGHTY_MALACHITE_UPGRADE_COST),
        SpecialGem::MightyMalachite => None,
        SpecialGem::PinkDiamond => Some(GREAT_PINK_DIAMOND_UPGRADE_COST),
        SpecialGem::GreatPinkDiamond => None,
        SpecialGem::RedCrystal => Some(RED_CRYSTAL_FACET_UPGRADE_COST),
        SpecialGem::RedCrystalFacet => Some(ROSE_QUARTZ_CRYSTAL_UPGRADE_COST),
        SpecialGem::RoseQuartzCrystal => None,
        SpecialGem::Silver => Some(STERLING_SILVER_UPGRADE_COST),
        SpecialGem::SterlingSilver => Some(SILVER_KNIGHT_UPGRADE_COST),
        SpecialGem::SilverKnight => None,
        SpecialGem::StarRuby => Some(BLOOD_STAR_UPGRADE_COST),
        SpecialGem::BloodStar => Some(FIRE_STAR_UPGRADE_COST),
        SpecialGem::FireStar => None,
        SpecialGem::Tourmaline => Some(PARAIBA_TOURMALINE_UPGRADE_COST),
        SpecialGem::ParaibaTourmaline => None,
        SpecialGem::Uranium238 => Some(URANIUM_235_UPGRADE_COST),
        SpecialGem::Uranium235 => None,
        SpecialGem::YellowSapphire => Some(STAR_YELLOW_SAPPHIRE_UPGRADE_COST),
        SpecialGem::StarYellowSapphire => None,
    }
}

pub open spec fn spec_sprite_grade(special: SpecialGem) -> GemGrade {
    match special {
        SpecialGem::BlackOpal => GemGrade::Cut,
        SpecialGem::MysticBlackOpal => GemGrade::Perfect,
        SpecialGem::BloodStone => GemGrade::Cut,
        SpecialGem::AncientBloodStone => GemGrade::Perfect,
        SpecialGem::Gold => GemGrade::Cut,
        SpecialGem::EgyptianGold => GemGrade::Perfect,
        SpecialGem::Jade => GemGrade::Regular,
        SpecialGem::AsianJade => GemGrade::Cut,
        SpecialGem::LuckyAsianJade => GemGrade::Perfect,
        SpecialGem::Malachite => GemGrade::Chipped,
        SpecialGem::VividMalachite => GemGrade::Cut,
        SpecialGem::MightyMalachite => GemGrade::Perfect,
        SpecialGem::PinkDiamond => GemGrade::Cut,
        SpecialGem::GreatPinkDiamond => GemGrade::Perfect,
        SpecialGem::RedCrystal => GemGrade::Cut,
        SpecialGem::RedCrystalFacet => GemGrade::Cut,
        SpecialGem::RoseQuartzCrystal => GemGrade::Perfect,
        SpecialGem::Silver => GemGrade::Chipped,
        SpecialGem::SterlingSilver => GemGrade::Cut,
        SpecialGem::SilverKnight => GemGrade::Perfect,
        SpecialGem::StarRuby => GemGrade::Chipped,
        SpecialGem::BloodStar => GemGrade::Cut,
        SpecialGem::FireStar => GemGrade::Perfect,
        SpecialGem::Tourmaline => GemGrade::Cut,
        SpecialGem::ParaibaTourmaline => GemGrade::Perfect,
        SpecialGem::Uranium238 => GemGrade::Cut,
        SpecialGem::Uranium235 => GemGrade::Perfect,
        SpecialGem::YellowSapphire => GemGrade::Cut,
        SpecialGem::StarYellowSapphire => GemGrade::Perfect,
    }
}

/// The basic gem a special tower counts as.
pub open spec fn spec_special_base_gem(special: SpecialGem) -> GemKind {
    match special {
        SpecialGem::BlackOpal => GemKind::Opal,
        SpecialGem::MysticBlackOpal => GemKind::Opal,
        SpecialGem::BloodStone => GemKind::Ruby,
        SpecialGem::AncientBloodStone => GemKind::Ruby,
        SpecialGem::Gold => GemKind::Amethyst,
        SpecialGem::EgyptianGold => GemKind::Amethyst,
        SpecialGem::Jade => GemKind::Emerald,
        SpecialGem::AsianJade => GemKind::Emerald,
        SpecialGem::LuckyAsianJade => GemKind::Emerald,
        SpecialGem::Malachite => GemKind::Opal,
        SpecialGem::VividMalachite => GemKind::Opal,
        SpecialGem::MightyMalachite => GemKind::Opal,
        SpecialGem::PinkDiamond => GemKind::Diamond,
        SpecialGem::GreatPinkDiamond => GemKind::Diamond,
        SpecialGem::RedCrystal => GemKind::Emerald,
        SpecialGem::RedCrystalFacet => GemKind::Emerald,
        SpecialGem::RoseQuartzCrystal => GemKind::Emerald,
        SpecialGem::Silver => GemKind::Sapphire,
        SpecialGem::SterlingSilver => GemKind::Sapphire,
        SpecialGem::SilverKnight => GemKind::Sapphire,
        SpecialGem::StarRuby => GemKind::Amethyst,
        SpecialGem::BloodStar => GemKind::Amethyst,
        SpecialGem::FireStar => GemKind::Amethyst,
        SpecialGem::Tourmaline => GemKind::Aquamarine,
        SpecialGem::ParaibaTourmaline => GemKind::Aquamarine,
        SpecialGem::Uranium238 => GemKind::Topaz,
        SpecialGem::Uranium235 => GemKind::Topaz,
        SpecialGem::YellowSapphire => GemKind::Sapphire,
        SpecialGem::StarYellowSapphire => GemKind::Sapphire,
    }
}

impl SpecialGem {
    /// Display name.
    pub fn name(self) -> (r: &'static str)
        ensures
            r@ == spec_special_name(self),
    {
        match self {
            SpecialGem::BlackOpal => "Black Opal",
            SpecialGem::MysticBlackOpal => "Mystic Black Opal",
            SpecialGem::BloodStone => "Blood Stone",
            SpecialGem::AncientBloodStone => "Ancient Blood Stone",
            SpecialGem::Gold => "Gold",
            SpecialGem::EgyptianGold => "Egyptian Gold",
            SpecialGem::Jade => "Jade",
            SpecialGem::AsianJade => "Asian Jade",
            SpecialGem::LuckyAsianJade => "Lucky Asian Jade",
            SpecialGem::Malachite => "Malachite",
            SpecialGem::VividMalachite => "Vivid Malachite",
            SpecialGem::MightyMalachite => "Mighty Malachite",
            SpecialGem::PinkDiamond => "Pink Diamond",
            SpecialGem::GreatPinkDiamond => "Great Pink Diamond",
            SpecialGem::RedCrystal => "Red Crystal",
            SpecialGem::RedCrystalFacet => "Red Crystal Facet",
            SpecialGem::RoseQuartzCrystal => "Rose Quartz Crystal",
            SpecialGem::Silver => "Silver",
            SpecialGem::SterlingSilver => "Sterling Silver",
            SpecialGem::SilverKnight => "Silver Knight",
            SpecialGem::StarRuby => "Star Ruby",
            SpecialGem::BloodStar => "Blood Star",
            SpecialGem::FireStar => "Fire Star",
            SpecialGem::Tourmaline => "Tourmaline",
            SpecialGem::ParaibaTourmaline => "Paraiba Tourmaline",
            SpecialGem::Uranium238 => "Uranium 238",
            SpecialGem::Uranium235 => "Uranium 235",
            SpecialGem::YellowSapphire => "Yellow Sapphire",
            SpecialGem::StarYellowSapphire => "Star Yellow Sapphire",
        }
    }

    /// Tower stats (range multiplier applied).
    pub fn stats(self) -> (r: TowerStats)
        ensures
            r == stats_of(spec_special_base(self)),
    {
        match self {
            SpecialGem::BlackOpal => TowerStats::new(24500, 114000, 1000),
            SpecialGem::MysticBlackOpal => TowerStats::new(70000, 143000, 1000),
            SpecialGem::BloodStone => TowerStats::new(68000, 100000, 500),
            SpecialGem::AncientBloodStone => TowerStats::new(200000, 100000, 800),
            SpecialGem::Gold => TowerStats::new(175000, 114000, 1000),
            SpecialGem::EgyptianGold => TowerStats::new(180000, 114000, 750),
            SpecialGem::Jade => TowerStats::new(32500, 114000, 500),
            SpecialGem::AsianJade => TowerStats::new(50000, 114000, 500),
            SpecialGem::LuckyAsianJade => TowerStats::new(55000, 121000, 350),
            SpecialGem::Malachite => TowerStats::new(6000, 107000, 500),
            SpecialGem::VividMalachite => TowerStats::new(11000, 114000, 500),
            SpecialGem::MightyMalachite => TowerStats::new(45000, 114000, 550),
            SpecialGem::PinkDiamond => TowerStats::new(162500, 114000, 750),
            SpecialGem::GreatPinkDiamond => TowerStats::new(200000, 121000, 650),
            SpecialGem::RedCrystal => TowerStats::new(62500, 186000, 800),
            SpecialGem::RedCrystalFacet => TowerStats::new(87500, 200000, 800),
            SpecialGem::RoseQuartzCrystal => TowerStats::new(112500, 214000, 800),
            SpecialGem::Silver => TowerStats::new(20500, 78000, 1000),
            SpecialGem::SterlingSilver => TowerStats::new(40000, 92000, 1000),
            SpecialGem::SilverKnight => TowerStats::new(150000, 107000, 1000),
            SpecialGem::StarRuby => TowerStats::new(40000, 38000, 1000),
            SpecialGem::BloodStar => TowerStats::new(50000, 71000, 1000),
            SpecialGem::FireStar => TowerStats::new(130000, 85000, 1000),
            SpecialGem::Tourmaline => TowerStats::new(205000, 121000, 750),
            SpecialGem::ParaibaTourmaline => TowerStats::new(225000, 125000, 750),
            SpecialGem::Uranium238 => TowerStats::new(47000, 64000, 250),
            SpecialGem::Uranium235 => TowerStats::new(64000, 85000, 250),
            SpecialGem::YellowSapphire => TowerStats::new(100000, 125000, 1250),
            SpecialGem::StarYellowSapphire => TowerStats::new(220000, 132000, 1250),
        }
    }

    /// On-hit behaviour.
    pub fn effect(self) -> (r: GemEffect)
        ensures
            r == spec_special_effect(self),
    {
        match self {
            SpecialGem::BlackOpal => GemEffect::NoEffect,
            SpecialGem::MysticBlackOpal => GemEffect::DamageBoost { damage_bonus_milli: BLACK_OPAL_DAMAGE_BOOST_MILLI, range_milli: 256500 },
            SpecialGem::BloodStone => GemEffect::Area { damage_fraction_milli: 1000 },
            SpecialGem::AncientBloodStone => GemEffect::AncientBlood { triple_chance_milli: 150, triple_multiplier_milli: 3000, burn_chance_milli: 100, burn_dps_milli: 500000, burn_duration_milli: 5000 },
            SpecialGem::Gold => GemEffect::ArmorBreak { crit_chance_milli: 250, crit_multiplier_milli: 2000, armor_reduction_milli: 5000, duration_milli: GOLD_ARMOR_DURATION_MILLI },
            SpecialGem::EgyptianGold => GemEffect::ArmorBreak { crit_chance_milli: 300, crit_multiplier_milli: 2000, armor_reduction_milli: 8000, duration_milli: GOLD_ARMOR_DURATION_MILLI },
            SpecialGem::Jade => GemEffect::JadePoison { dps_milli: 5000, duration_milli: 2000, slow_factor_milli: 500, crit_chance_milli: 0, crit_multiplier_milli: 1000, stun_chance_milli: 0, stun_duration_milli: 0, gold_chance_milli: 0 },
            SpecialGem::AsianJade => GemEffect::JadePoison { dps_milli: 10000, duration_milli: 3000, slow_factor_milli: 500, crit_chance_milli: 0, crit_multiplier_milli: 1000, stun_chance_milli: 0, stun_duration_milli: 0, gold_chance_milli: 0 },
            SpecialGem::LuckyAsianJade => GemEffect::JadePoison { dps_milli: 10000, duration_milli: 4000, slow_factor_milli: 500, crit_chance_milli: 50, crit_multiplier_milli: 4000, stun_chance_milli: 10, stun_duration_milli: 2000, gold_chance_milli: 10 },
            SpecialGem::Malachite => GemEffect::Multi { targets: 3, damage_fraction_milli: 1000 },
            SpecialGem::VividMalachite => GemEffect::Multi { targets: 4, damage_fraction_milli: 1000 },
            SpecialGem::MightyMalachite => GemEffect::Area { damage_fraction_milli: 1000 },
            SpecialGem::PinkDiamond => GemEffect::Critical { chance_milli: 100, multiplier_milli: 5000, ground_only: true },
            SpecialGem::GreatPinkDiamond => GemEffect::Critical { chance_milli: 100, multiplier_milli: 8000, ground_only: true },
            SpecialGem::RedCrystal => GemEffect::AirArmorAura { armor_reduction_milli: 4000 },
            SpecialGem::RedCrystalFacet => GemEffect::AirArmorAura { armor_reduction_milli: 5000 },
            SpecialGem::RoseQuartzCrystal => GemEffect::AirArmorAura { armor_reduction_milli: 6000 },
            SpecialGem::Silver => GemEffect::SlowSplash { radius_milli: SILVER_SPLASH_RADIUS_MILLI, damage_fraction_milli: 1000, slow_factor_milli: SILVER_SLOW_FACTOR_MILLI, slow_duration_milli: SILVER_SLOW_DURATION_MILLI },
            SpecialGem::SterlingSilver => GemEffect::SlowSplash { radius_milli: SILVER_SPLASH_RADIUS_MILLI, damage_fraction_milli: 1000, slow_factor_milli: SILVER_SLOW_FACTOR_MILLI, slow_duration_milli: SILVER_SLOW_DURATION_MILLI },
            SpecialGem::SilverKnight => GemEffect::SlowSplash { radius_milli: SILVER_SPLASH_RADIUS_MILLI, damage_fraction_milli: 1000, slow_factor_milli: SILVER_SLOW_FACTOR_MILLI, slow_duration_milli: SILVER_SLOW_DURATION_MILLI },
            SpecialGem::StarRuby => GemEffect::DamageAura { dps_milli: 40000 },
            SpecialGem::BloodStar => GemEffect::DamageAura { dps_milli: 50000 },
            SpecialGem::FireStar => GemEffect::DamageAura { dps_milli: 130000 },
            SpecialGem::Tourmaline => GemEffect::Tourmaline { proc_chance_milli: TOURMALINE_PROC_CHANCE_MILLI, proc_total_damage_milli: 200000, proc_duration_milli: TOURMALINE_PROC_DURATION_MILLI, armor_reduction_milli: 4000, armor_range_milli: 128700 },
            SpecialGem::ParaibaTourmaline => GemEffect::Tourmaline { proc_chance_milli: TOURMALINE_PROC_CHANCE_MILLI, proc_total_damage_milli: 250000, proc_duration_milli: TOURMALINE_PROC_DURATION_MILLI, armor_reduction_milli: 6000, armor_range_milli: 139500 },
            SpecialGem::Uranium238 => GemEffect::SlowAura { factor_milli: URANIUM_SLOW_FACTOR_MILLI, radius_milli: 96000, duration_milli: URANIUM_SLOW_DURATION_MILLI, ignores_opals: true },
            SpecialGem::Uranium235 => GemEffect::SlowAura { factor_milli: URANIUM_SLOW_FACTOR_MILLI, radius_milli: 96000, duration_milli: URANIUM_SLOW_DURATION_MILLI, ignores_opals: true },
            SpecialGem::YellowSapphire => GemEffect::SlowSplash { radius_milli: YELLOW_SAPPHIRE_SPLASH_RADIUS_MILLI, damage_fraction_milli: 1000, slow_factor_milli: 700, slow_duration_milli: YELLOW_SAPPHIRE_SLOW_DURATION_MILLI },
            SpecialGem::StarYellowSapphire => GemEffect::SlowSplashBoost { radius_milli: YELLOW_SAPPHIRE_SPLASH_RADIUS_MILLI, damage_fraction_milli: 1000, slow_factor_milli: 600, slow_duration_milli: YELLOW_SAPPHIRE_SLOW_DURATION_MILLI, damage_bonus_milli: STAR_YELLOW_SAPPHIRE_DAMAGE_BOOST_MILLI, boost_range_milli: 256500 },
        }
    }

    /// The special this one upgrades into, if any.
    pub fn upgrade(self) -> (r: Option<SpecialGem>)
        ensures
            r == spec_special_upgrade(self),
    {
        match self {
            SpecialGem::BlackOpal => Some(SpecialGem::MysticBlackOpal),
            SpecialGem::MysticBlackOpal => None,
            SpecialGem::BloodStone => Some(SpecialGem::AncientBloodStone),
            SpecialGem::AncientBloodStone => None,
            SpecialGem::Gold => Some(SpecialGem::EgyptianGold),
            SpecialGem::EgyptianGold => None,
            SpecialGem::Jade => Some(SpecialGem::AsianJade),
            SpecialGem::AsianJade => Some(SpecialGem::LuckyAsianJade),
            SpecialGem::LuckyAsianJade => None,
            SpecialGem::Malachite => Some(SpecialGem::VividMalachite),
            SpecialGem::VividMalachite => Some(SpecialGem::MightyMalachite),
            SpecialGem::MightyMalachite => None,
            SpecialGem::PinkDiamond => Some(SpecialGem::GreatPinkDiamond),
            SpecialGem::GreatPinkDiamond => None,
            SpecialGem::RedCrystal => Some(SpecialGem::RedCrystalFacet),
            SpecialGem::RedCrystalFacet => Some(SpecialGem::RoseQuartzCrystal),
            SpecialGem::RoseQuartzCrystal => None,
            SpecialGem::Silver => Some(SpecialGem::SterlingSilver),
            SpecialGem::SterlingSilver => Some(SpecialGem::SilverKnight),
            SpecialGem::SilverKnight => None,
            SpecialGem::StarRuby => Some(SpecialGem::BloodStar),
            SpecialGem::BloodStar => Some(SpecialGem::FireStar),
            SpecialGem::FireStar => None,
            SpecialGem::Tourmaline => Some(SpecialGem::ParaibaTourmaline),
            SpecialGem::ParaibaTourmaline => None,
            SpecialGem::Uranium238 => Some(SpecialGem::Uranium235),
            SpecialGem::Uranium235 => None,
            SpecialGem::YellowSapphire => Some(SpecialGem::StarYellowSapphire),
            SpecialGem::StarYellowSapphire => None,
        }
    }

    /// Gold cost of that upgrade, if any.
    pub fn upgrade_cost(self) -> (r: Option<u32>)
        ensures
            r == spec_special_upgrade_cost(self),
    {
        match self {
            SpecialGem::BlackOpal => Some(BLACK_OPAL_UPGRADE_COST),
            SpecialGem::MysticBlackOpal => None,
            SpecialGem::BloodStone => Some(BLOOD_STONE_UPGRADE_COST),
            SpecialGem::AncientBloodStone => None,
            SpecialGem::Gold => Some(GOLD_UPGRADE_COST),
            SpecialGem::EgyptianGold => None,
            SpecialGem::Jade => Some(ASIAN_JADE_UPGRADE_COST),
            SpecialGem::AsianJade => Some(LUCKY_ASIAN_JADE_UPGRADE_COST),
            SpecialGem::LuckyAsianJade => None,
            SpecialGem::Malachite => Some(VIVID_MALACHITE_UPGRADE_COST),
            SpecialGem::VividMalachite => Some(MIGHTY_MALACHITE_UPGRADE_COST),
            SpecialGem::MightyMalachite => None,
            SpecialGem::PinkDiamond => Some(GREAT_PINK_DIAMOND_UPGRADE_COST),
            SpecialGem::GreatPinkDiamond => None,
            SpecialGem::RedCrystal => Some(RED_CRYSTAL_FACET_UPGRADE_COST),
            SpecialGem::RedCrystalFacet => Some(ROSE_QUARTZ_CRYSTAL_UPGRADE_COST),
            SpecialGem::RoseQuartzCrystal => None,
            SpecialGem::Silver => Some(STERLING_SILVER_UPGRADE_COST),
            SpecialGem::SterlingSilver => Some(SILVER_KNIGHT_UPGRADE_COST),
            SpecialGem::SilverKnight => None,
            SpecialGem::StarRuby => Some(BLOOD_STAR_UPGRADE_COST),
            SpecialGem::BloodStar => Some(FIRE_STAR_UPGRADE_COST),
            SpecialGem::FireStar => None,
            SpecialGem::Tourmaline => Some(PARAIBA_TOURMALINE_UPGRADE_COST),
            SpecialGem::ParaibaTourmaline => None,
            SpecialGem::Uranium238 => Some(URANIUM_235_UPGRADE_COST),
            SpecialGem::Uranium235 => None,
            SpecialGem::YellowSapphire => Some(STAR_YELLOW_SAPPHIRE_UPGRADE_COST),
            SpecialGem::StarYellowSapphire => None,
        }
    }

    /// Grade whose sprite and size the special uses.
    pub fn sprite_grade(self) -> (r: GemGrade)
        ensures
            r == spec_sprite_grade(self),
    {
        match self {
            SpecialGem::BlackOpal => GemGrade::Cut,
            SpecialGem::MysticBlackOpal => GemGrade::Perfect,
            SpecialGem::BloodStone => GemGrade::Cut,
            SpecialGem::AncientBloodStone => GemGrade::Perfect,
            SpecialGem::Gold => GemGrade::Cut,
            SpecialGem::EgyptianGold => GemGrade::Perfect,
            SpecialGem::Jade => GemGrade::Regular,
            SpecialGem::AsianJade => GemGrade::Cut,
            SpecialGem::LuckyAsianJade => GemGrade::Perfect,
            SpecialGem::Malachite => GemGrade::Chipped,
            SpecialGem::VividMalachite => GemGrade::Cut,
            SpecialGem::MightyMalachite => GemGrade::Perfect,
            SpecialGem::PinkDiamond => GemGrade::Cut,
            SpecialGem::GreatPinkDiamond => GemGrade::Perfect,
            SpecialGem::RedCrystal => GemGrade::Cut,
            SpecialGem::RedCrystalFacet => GemGrade::Cut,
            SpecialGem::RoseQuartzCrystal => GemGrade::Perfect,
            SpecialGem::Silver => GemGrade::Chipped,
            SpecialGem::SterlingSilver => GemGrade::Cut,
            SpecialGem::SilverKnight => GemGrade::Perfect,
            SpecialGem::StarRuby => GemGrade::Chipped,
            SpecialGem::BloodStar => GemGrade::Cut,
            SpecialGem::FireStar => GemGrade::Perfect,
            SpecialGem::Tourmaline => GemGrade::Cut,
            SpecialGem::ParaibaTourmaline => GemGrade::Perfect,
            SpecialGem::Uranium238 => GemGrade::Cut,
            SpecialGem::Uranium235 => GemGrade::Perfect,
            SpecialGem::YellowSapphire => GemGrade::Cut,
            SpecialGem::StarYellowSapphire => GemGrade::Perfect,
        }
    }

    /// The basic gem a special tower counts as.
    pub fn base_gem(self) -> (r: GemKind)
        ensures
            r == spec_special_base_gem(self),
    {
        match self {
            SpecialGem::BlackOpal => GemKind::Opal,
            SpecialGem::MysticBlackOpal => GemKind::Opal,
            SpecialGem::BloodStone => GemKind::Ruby,
            SpecialGem::AncientBloodStone => GemKind::Ruby,
            SpecialGem::Gold => GemKind::Amethyst,
            SpecialGem::EgyptianGold => GemKind::Amethyst,
            SpecialGem::Jade => GemKind::Emerald,
            SpecialGem::AsianJade => GemKind::Emerald,
            SpecialGem::LuckyAsianJade => GemKind::Emerald,
            SpecialGem::Malachite => GemKind::Opal,
            SpecialGem::VividMalachite => GemKind::Opal,
            SpecialGem::MightyMalachite => GemKind::Opal,
            SpecialGem::PinkDiamond => GemKind::Diamond,
            SpecialGem::GreatPinkDiamond => GemKind::Diamond,
            SpecialGem::RedCrystal => GemKind::Emerald,
            SpecialGem::RedCrystalFacet => GemKind::Emerald,
            SpecialGem::RoseQuartzCrystal => GemKind::Emerald,
            SpecialGem::Silver => GemKind::Sapphire,
            SpecialGem::SterlingSilver => GemKind::Sapphire,
            SpecialGem::SilverKnight => GemKind::Sapphire,
            SpecialGem::StarRuby => GemKind::Amethyst,
            SpecialGem::BloodStar => GemKind::Amethyst,
            SpecialGem::FireStar => GemKind::Amethyst,
            SpecialGem::Tourmaline => GemKind::Aquamarine,
            SpecialGem::ParaibaTourmaline => GemKind::Aquamarine,
            SpecialGem::Uranium238 => GemKind::Topaz,
            SpecialGem::Uranium235 => GemKind::Topaz,
            SpecialGem::YellowSapphire => GemKind::Sapphire,
            SpecialGem::StarYellowSapphire => GemKind::Sapphire,
        }
    }

}

} // verus!
