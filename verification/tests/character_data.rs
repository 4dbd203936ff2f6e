//! Character data, dice and damage behavior on concrete values.

use statgraph::character::Ability;
use statgraph::character::Proficiency;
use statgraph::character::ProficiencyBonus;
use statgraph::character::Race;
use statgraph::character::race_dark_vision;
use statgraph::damage::apply_damage;
use statgraph::damage::DamageOutcome;
use statgraph::dice::Dice;
use statgraph::dice::DiceType;
use statgraph::dice::roll;
use statgraph::ids::StatEnum;
use statgraph::items::ItemsEnum;
use statgraph::stat::Stat;
use statgraph::unit::Unit;

#[test]
fn ability_modifier_floors_below_ten() {
    let ability = |total: i64| Ability {
        stat: Stat::new(total, Vec::new()),
        proficiency: Proficiency::Untrained,
    };
    assert_eq!(ability(10_000).calculate_modifier(), 0);
    assert_eq!(ability(15_000).calculate_modifier(), 2);
    assert_eq!(ability(8_000).calculate_modifier(), -1);
    assert_eq!(ability(7_000).calculate_modifier(), -2);
    assert_eq!(ability(30_000).calculate_modifier(), 10);
}

#[test]
fn proficiency_bonus_grows_every_four_levels() {
    assert_eq!(ProficiencyBonus::from_level(1).0, 2);
    assert_eq!(ProficiencyBonus::from_level(4).0, 2);
    assert_eq!(ProficiencyBonus::from_level(5).0, 3);
    assert_eq!(ProficiencyBonus::from_level(9).0, 4);
    assert_eq!(ProficiencyBonus::from_level(20).0, 6);
}

#[test]
fn races_with_dark_vision() {
    assert_eq!(race_dark_vision(Race::DarkElf), Some(120_000));
    assert_eq!(race_dark_vision(Race::HillDwarf), Some(60_000));
    assert_eq!(race_dark_vision(Race::Tiefling), Some(60_000));
    assert_eq!(race_dark_vision(Race::Human), None);
    assert_eq!(race_dark_vision(Race::DragonBorn), None);
}

#[test]
fn proficiency_marks_are_stored_per_stat() {
    let mut u = Unit::new();
    assert_eq!(u.proficiency(StatEnum::Stealth), Proficiency::Untrained);
    u.set_proficiency(StatEnum::Stealth, Proficiency::Expert);
    assert_eq!(u.proficiency(StatEnum::Stealth), Proficiency::Expert);
    assert_eq!(u.proficiency(StatEnum::Acrobatics), Proficiency::Untrained);
}

#[test]
fn dice_upper_limits() {
    assert_eq!(DiceType::D2.upper_limit(), 3);
    assert_eq!(DiceType::D4.upper_limit(), 5);
    assert_eq!(DiceType::D6.upper_limit(), 7);
    assert_eq!(DiceType::D8.upper_limit(), 9);
    assert_eq!(DiceType::D10.upper_limit(), 11);
    assert_eq!(DiceType::D12.upper_limit(), 13);
    assert_eq!(DiceType::D20.upper_limit(), 21);
    assert_eq!(DiceType::D100.upper_limit(), 101);
}

#[test]
fn rolls_stay_in_range() {
    for _ in 0..50 {
        let total = roll(&Dice { dice_type: DiceType::D6, number: 10 });
        assert!((10..=60).contains(&total));
        let single = roll(&Dice { dice_type: DiceType::D20, number: 1 });
        assert!((1..=20).contains(&single));
    }
    assert_eq!(roll(&Dice { dice_type: DiceType::D6, number: 0 }), 0);
}

#[test]
fn rolls_vary_beyond_the_minimum() {
    // 200 hundred-sided dice land on the minimum total only if every draw
    // comes out 1; a generator actually sampling the range will exceed it.
    let total = roll(&Dice { dice_type: DiceType::D100, number: 200 });
    assert!(total > 200);
}

#[test]
fn damage_outcomes() {
    assert_eq!(apply_damage(50_000, 20_000, true, 30_000), (30_000, DamageOutcome::StillUp));
    assert_eq!(
        apply_damage(10_000, 10_000, false, 30_000),
        (0, DamageOutcome::EnemyDespawns)
    );
    assert_eq!(
        apply_damage(10_000, 20_000, true, 30_000),
        (-10_000, DamageOutcome::PlayerDown)
    );
    assert_eq!(
        apply_damage(10_000, 70_000, true, 30_000),
        (-60_000, DamageOutcome::PlayerDead)
    );
}

#[test]
fn item_catalog_data() {
    let club = ItemsEnum::Club.item_data();
    assert_eq!(club.weight, 2);
    assert_eq!(club.cost, 10);
    assert_eq!(club.damage, Some(Dice { dice_type: DiceType::D4, number: 1 }));

    let ring = ItemsEnum::RingOfHealth.item_data();
    assert_eq!(ring.weight, 0);
    assert_eq!(ring.cost, 1000);
    assert_eq!(ring.damage, None);

    let s = ItemsEnum::RingOfHealth.modifier_source(5);
    assert_eq!(s.id, 5);
    assert_eq!(s.mods.0.len(), 1);
    assert_eq!(s.mods.0[0].stat, StatEnum::MaxHealth);
    assert_eq!(s.mods.0[0].value, 10_000);

    assert_eq!(ItemsEnum::Club.modifier_source(6).mods.0.len(), 0);
}
