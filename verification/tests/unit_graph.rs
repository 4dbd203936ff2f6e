//! Unit-level behavior: the recompute protocol, cascade propagation,
//! equip/unequip, and their laws on concrete characters.

use statgraph::ids::StatEnum;
use statgraph::items::ItemsEnum;
use statgraph::modifier::ModType;
use statgraph::modifier::ModifierSource;
use statgraph::modifier::StatMod;
use statgraph::modifier::StatModList;
use statgraph::unit::Unit;

fn source(id: u64, mods: Vec<StatMod>) -> ModifierSource {
    ModifierSource { id, mods: StatModList(mods) }
}

fn add(stat: StatEnum, value: i64) -> StatMod {
    StatMod { stat, value, mod_type: ModType::Add }
}

fn seeded_character() -> Unit {
    let mut u = Unit::new();
    u.seed_base(StatEnum::Dexterity, 10_000);
    u.seed_base(StatEnum::Acrobatics, 3_000);
    u.seed_base(StatEnum::Stealth, 1_000);
    u.seed_base(StatEnum::SleightOfHand, 0);
    u.seed_base(StatEnum::ArmorClass, 10_000);
    u.seed_base(StatEnum::MaxHealth, 30_000);
    u
}

#[test]
fn creation_seeds_total_equal_to_base() {
    let u = seeded_character();
    assert_eq!(u.base(StatEnum::MaxHealth), 30_000);
    assert_eq!(u.total(StatEnum::MaxHealth), 30_000);
    assert_eq!(u.total(StatEnum::Persuasion), 0);
}

#[test]
fn cascade_propagates_from_dexterity() {
    let mut u = seeded_character();
    // Raise Dexterity from 10 to 14: its derived modifier goes 0 -> +2,
    // and one recompute call must update every declared dependent.
    u.set_base(StatEnum::Dexterity, 14_000);
    let changed = u.recompute(StatEnum::Dexterity);
    assert!(changed);
    assert_eq!(u.total(StatEnum::Dexterity), 14_000);
    assert_eq!(u.ability_modifier(StatEnum::Dexterity), 2);
    assert_eq!(u.total(StatEnum::Acrobatics), 5_000);
    assert_eq!(u.total(StatEnum::Stealth), 3_000);
    assert_eq!(u.total(StatEnum::SleightOfHand), 2_000);
    assert_eq!(u.total(StatEnum::ArmorClass), 12_000);
}

#[test]
fn recompute_is_idempotent() {
    let mut u = seeded_character();
    u.set_base(StatEnum::Dexterity, 14_000);
    let first = u.recompute(StatEnum::Dexterity);
    assert!(first);
    let snapshot = u.clone();
    let second = u.recompute(StatEnum::Dexterity);
    assert!(!second);
    assert_eq!(u, snapshot);
}

#[test]
fn no_change_suppresses_the_cascade() {
    let mut u = seeded_character();
    // MaxHealth is settled (no modifiers, baseline 0, total == base), so
    // recomputing reports no change and rewrites nothing.
    let snapshot = u.clone();
    let changed = u.recompute(StatEnum::MaxHealth);
    assert!(!changed);
    assert_eq!(u, snapshot);
}

#[test]
fn net_zero_contribution_reports_unchanged() {
    let u = seeded_character();
    let mut v = u.clone();
    v.equip(source(1, vec![add(StatEnum::MaxHealth, 0)]));
    assert_eq!(v.total(StatEnum::MaxHealth), u.total(StatEnum::MaxHealth));
    let changed = v.recompute(StatEnum::MaxHealth);
    assert!(!changed);
}

#[test]
fn equip_applies_and_unequip_restores() {
    let mut u = seeded_character();
    let before = u.clone();
    u.equip(source(7, vec![add(StatEnum::MaxHealth, 10_000)]));
    assert_eq!(u.total(StatEnum::MaxHealth), 40_000);
    assert!(u.has_source(7));
    u.unequip(7);
    assert!(!u.has_source(7));
    assert_eq!(u, before);
}

#[test]
fn equip_unequip_symmetry_over_several_targets() {
    let mut u = seeded_character();
    // Settle the dexterity skills first so the pre-equip state is the
    // aggregation fixpoint the symmetry law speaks of.
    u.recompute(StatEnum::Acrobatics);
    u.recompute(StatEnum::Stealth);
    let before = u.clone();
    let s = source(
        3,
        vec![
            add(StatEnum::Acrobatics, 2_000),
            StatMod { stat: StatEnum::Stealth, value: 250, mod_type: ModType::Mult },
            StatMod { stat: StatEnum::MaxHealth, value: 50_000, mod_type: ModType::BestOf },
        ],
    );
    u.equip(s);
    assert_eq!(u.total(StatEnum::Acrobatics), 5_000);
    assert_eq!(u.total(StatEnum::MaxHealth), 50_000);
    u.unequip(3);
    assert_eq!(u, before);
}

#[test]
fn equip_unequip_symmetry_through_a_cascade() {
    let mut u = seeded_character();
    // Settle dexterity's dependents so the whole affected set is at its
    // aggregation fixpoint before the equip.
    for id in [
        StatEnum::Acrobatics,
        StatEnum::SleightOfHand,
        StatEnum::Stealth,
        StatEnum::ArmorClass,
    ] {
        u.recompute(id);
    }
    let before = u.clone();
    // Gauntlets of dexterity: +4 dexterity shifts the modifier by +2 and
    // cascades into every dependent.
    u.equip(source(4, vec![add(StatEnum::Dexterity, 4_000)]));
    assert_eq!(u.total(StatEnum::Dexterity), 14_000);
    assert_eq!(u.total(StatEnum::Acrobatics), 5_000);
    assert_eq!(u.total(StatEnum::ArmorClass), 12_000);
    u.unequip(4);
    assert_eq!(u, before);
}

#[test]
fn last_replace_wins_over_everything() {
    let mut u = seeded_character();
    u.equip(source(
        1,
        vec![
            add(StatEnum::MaxHealth, 5_000),
            StatMod { stat: StatEnum::MaxHealth, value: 42_000, mod_type: ModType::Replace },
            StatMod { stat: StatEnum::MaxHealth, value: 900, mod_type: ModType::Mult },
            StatMod { stat: StatEnum::MaxHealth, value: 99_000, mod_type: ModType::BestOf },
        ],
    ));
    u.equip(source(
        2,
        vec![StatMod { stat: StatEnum::MaxHealth, value: 37_000, mod_type: ModType::Replace }],
    ));
    // The later source's Replace entry is last in iteration order.
    assert_eq!(u.total(StatEnum::MaxHealth), 37_000);
}

#[test]
fn modifiers_from_all_attached_sources_are_merged() {
    let mut u = seeded_character();
    u.equip(source(1, vec![add(StatEnum::MaxHealth, 2_000)]));
    u.equip(source(2, vec![add(StatEnum::MaxHealth, 3_000)]));
    assert_eq!(u.total(StatEnum::MaxHealth), 35_000);
    u.unequip(1);
    assert_eq!(u.total(StatEnum::MaxHealth), 33_000);
}

#[test]
fn unequip_of_missing_source_changes_nothing() {
    let mut u = seeded_character();
    let snapshot = u.clone();
    u.unequip(99);
    assert_eq!(u, snapshot);
}

#[test]
fn one_source_may_target_one_stat_twice() {
    let mut u = seeded_character();
    u.equip(source(
        1,
        vec![add(StatEnum::MaxHealth, 2_000), add(StatEnum::MaxHealth, 3_000)],
    ));
    assert_eq!(u.total(StatEnum::MaxHealth), 35_000);
}

#[test]
fn ring_of_health_grants_ten_points() {
    let mut u = seeded_character();
    let ring = ItemsEnum::RingOfHealth.modifier_source(11);
    u.equip(ring);
    assert_eq!(u.total(StatEnum::MaxHealth), 40_000);
    u.unequip(11);
    assert_eq!(u.total(StatEnum::MaxHealth), 30_000);
}

#[test]
fn mod_room_tracks_attached_modifiers() {
    let mut u = seeded_character();
    let full = u.mod_room();
    u.equip(source(1, vec![add(StatEnum::MaxHealth, 1_000), add(StatEnum::Stealth, 1_000)]));
    assert_eq!(u.mod_room(), full - 2);
    u.unequip(1);
    assert_eq!(u.mod_room(), full);
}
