//! Stat identifiers and the fixed rules wiring between them.
//!
//! A [`StatEnum`] addresses a stat on a unit without a direct reference. Two
//! closed, total mappings are derived from it: [`stat_index`], which resolves
//! an identifier to its storage slot, and [`governing_ability`], which names
//! the ability whose derived modifier feeds a dependent stat's aggregation
//! as its external baseline.

use vstd::prelude::*;

verus! {

/// One tag per tracked stat: six abilities, eighteen skills, armor class,
/// max health and dark vision.
#[derive(Clone, Copy, PartialEq, Eq, Debug, Structural)]
pub enum StatEnum {
    MaxHealth,
    ArmorClass,
    DarkVision,
    Strength,
    Constitution,
    Dexterity,
    Intelligence,
    Wisdom,
    Charisma,
    Athletics,
    Acrobatics,
    SleightOfHand,
    Stealth,
    Arcana,
    History,
    Investigation,
    Nature,
    Religion,
    AnimalHandling,
    Insight,
    Medicine,
    Perception,
    Survival,
    Deception,
    Intimidation,
    Performance,
    Persuasion,
}

/// Number of tracked stats; a unit stores exactly one `Stat` per identifier.
pub const NUM_STATS: usize = 27;

/// Storage slot of each identifier: the closed, total dispatch mapping from
/// a `StatEnum` to the position of its stat on a unit.
pub open spec fn spec_stat_index(id: StatEnum) -> int {
    match id {
        StatEnum::MaxHealth => 0,
        StatEnum::ArmorClass => 1,
        StatEnum::DarkVision => 2,
        StatEnum::Strength => 3,
        StatEnum::Constitution => 4,
        StatEnum::Dexterity => 5,
        StatEnum::Intelligence => 6,
        StatEnum::Wisdom => 7,
        StatEnum::Charisma => 8,
        StatEnum::Athletics => 9,
        StatEnum::Acrobatics => 10,
        StatEnum::SleightOfHand => 11,
        StatEnum::Stealth => 12,
        StatEnum::Arcana => 13,
        StatEnum::History => 14,
        StatEnum::Investigation => 15,
        StatEnum::Nature => 16,
        StatEnum::Religion => 17,
        StatEnum::AnimalHandling => 18,
        StatEnum::Insight => 19,
        StatEnum::Medicine => 20,
        StatEnum::Perception => 21,
        StatEnum::Survival => 22,
        StatEnum::Deception => 23,
        StatEnum::Intimidation => 24,
        StatEnum::Performance => 25,
        StatEnum::Persuasion => 26,
    }
}

/// Every identifier resolves to a slot inside the unit's stat storage.
pub proof fn lemma_stat_index_in_bounds(id: StatEnum)
    ensures
        0 <= spec_stat_index(id) < NUM_STATS,
{
}

/// Distinct identifiers resolve to distinct slots, so writing one stat never
/// touches another.
pub proof fn lemma_stat_index_injective(a: StatEnum, b: StatEnum)
    ensures
        a != b ==> spec_stat_index(a) != spec_stat_index(b),
{
}

/// Resolves an identifier to its storage slot.
pub fn stat_index(id: StatEnum) -> (i: usize)
    ensures
        i == spec_stat_index(id),
        i < NUM_STATS,
{
    match id {
        StatEnum::MaxHealth => 0,
        StatEnum::ArmorClass => 1,
        StatEnum::DarkVision => 2,
        StatEnum::Strength => 3,
        StatEnum::Constitution => 4,
        StatEnum::Dexterity => 5,
        StatEnum::Intelligence => 6,
        StatEnum::Wisdom => 7,
        StatEnum::Charisma => 8,
        StatEnum::Athletics => 9,
        StatEnum::Acrobatics => 10,
        StatEnum::SleightOfHand => 11,
        StatEnum::Stealth => 12,
        StatEnum::Arcana => 13,
        StatEnum::History => 14,
        StatEnum::Investigation => 15,
        StatEnum::Nature => 16,
        StatEnum::Religion => 17,
        StatEnum::AnimalHandling => 18,
        StatEnum::Insight => 19,
        StatEnum::Medicine => 20,
        StatEnum::Perception => 21,
        StatEnum::Survival => 22,
        StatEnum::Deception => 23,
        StatEnum::Intimidation => 24,
        StatEnum::Performance => 25,
        StatEnum::Persuasion => 26,
    }
}

/// Resolves a storage slot back to its identifier: the inverse of
/// [`stat_index`].
pub fn stat_of_index(i: usize) -> (id: StatEnum)
    requires
        i < NUM_STATS,
    ensures
        spec_stat_index(id) == i as int,
{
    match i {
        0 => StatEnum::MaxHealth,
        1 => StatEnum::ArmorClass,
        2 => StatEnum::DarkVision,
        3 => StatEnum::Strength,
        4 => StatEnum::Constitution,
        5 => StatEnum::Dexterity,
        6 => StatEnum::Intelligence,
        7 => StatEnum::Wisdom,
        8 => StatEnum::Charisma,
        9 => StatEnum::Athletics,
        10 => StatEnum::Acrobatics,
        11 => StatEnum::SleightOfHand,
        12 => StatEnum::Stealth,
        13 => StatEnum::Arcana,
        14 => StatEnum::History,
        15 => StatEnum::Investigation,
        16 => StatEnum::Nature,
        17 => StatEnum::Religion,
        18 => StatEnum::AnimalHandling,
        19 => StatEnum::Insight,
        20 => StatEnum::Medicine,
        21 => StatEnum::Perception,
        22 => StatEnum::Survival,
        23 => StatEnum::Deception,
        24 => StatEnum::Intimidation,
        25 => StatEnum::Performance,
        _ => StatEnum::Persuasion,
    }
}

/// The ability whose derived modifier is a stat's external baseline.
///
/// Skills draw on their governing ability, and armor class draws on
/// Dexterity, per the tabletop rules mapping. Abilities themselves, max
/// health and dark vision have no baseline.
pub open spec fn spec_governing_ability(id: StatEnum) -> Option<StatEnum> {
    match id {
        StatEnum::Athletics => Some(StatEnum::Strength),
        StatEnum::Acrobatics => Some(StatEnum::Dexterity),
        StatEnum::SleightOfHand => Some(StatEnum::Dexterity),
        StatEnum::Stealth => Some(StatEnum::Dexterity),
        StatEnum::ArmorClass => Some(StatEnum::Dexterity),
        StatEnum::Arcana => Some(StatEnum::Intelligence),
        StatEnum::History => Some(StatEnum::Intelligence),
        StatEnum::Investigation => Some(StatEnum::Intelligence),
        StatEnum::Nature => Some(StatEnum::Intelligence),
        StatEnum::Religion => Some(StatEnum::Intelligence),
        StatEnum::AnimalHandling => Some(StatEnum::Wisdom),
        StatEnum::Insight => Some(StatEnum::Wisdom),
        StatEnum::Medicine => Some(StatEnum::Wisdom),
        StatEnum::Perception => Some(StatEnum::Wisdom),
        StatEnum::Survival => Some(StatEnum::Wisdom),
        StatEnum::Deception => Some(StatEnum::Charisma),
        StatEnum::Intimidation => Some(StatEnum::Charisma),
        StatEnum::Performance => Some(StatEnum::Charisma),
        StatEnum::Persuasion => Some(StatEnum::Charisma),
        _ => None,
    }
}

/// Resolves a stat's governing ability, if it has one.
pub fn governing_ability(id: StatEnum) -> (g: Option<StatEnum>)
    ensures
        g == spec_governing_ability(id),
{
    match id {
        StatEnum::Athletics => Some(StatEnum::Strength),
        StatEnum::Acrobatics => Some(StatEnum::Dexterity),
        StatEnum::SleightOfHand => Some(StatEnum::Dexterity),
        StatEnum::Stealth => Some(StatEnum::Dexterity),
        StatEnum::ArmorClass => Some(StatEnum::Dexterity),
        StatEnum::Arcana => Some(StatEnum::Intelligence),
        StatEnum::History => Some(StatEnum::Intelligence),
        StatEnum::Investigation => Some(StatEnum::Intelligence),
        StatEnum::Nature => Some(StatEnum::Intelligence),
        StatEnum::Religion => Some(StatEnum::Intelligence),
        StatEnum::AnimalHandling => Some(StatEnum::Wisdom),
        StatEnum::Insight => Some(StatEnum::Wisdom),
        StatEnum::Medicine => Some(StatEnum::Wisdom),
        StatEnum::Perception => Some(StatEnum::Wisdom),
        StatEnum::Survival => Some(StatEnum::Wisdom),
        StatEnum::Deception => Some(StatEnum::Charisma),
        StatEnum::Intimidation => Some(StatEnum::Charisma),
        StatEnum::Performance => Some(StatEnum::Charisma),
        StatEnum::Persuasion => Some(StatEnum::Charisma),
        _ => None,
    }
}

/// The standard outgoing dependency list of each stat: the inverse of
/// [`spec_governing_ability`]. Each ability cascades into the stats whose
/// baseline it feeds; every other stat has no dependents.
pub open spec fn spec_standard_deps(id: StatEnum) -> Seq<StatEnum> {
    match id {
        StatEnum::Strength => seq![StatEnum::Athletics],
        StatEnum::Dexterity => seq![
            StatEnum::Acrobatics,
            StatEnum::SleightOfHand,
            StatEnum::Stealth,
            StatEnum::ArmorClass,
        ],
        StatEnum::Intelligence => seq![
            StatEnum::Arcana,
            StatEnum::History,
            StatEnum::Investigation,
            StatEnum::Nature,
            StatEnum::Religion,
        ],
        StatEnum::Wisdom => seq![
            StatEnum::AnimalHandling,
            StatEnum::Insight,
            StatEnum::Medicine,
            StatEnum::Perception,
            StatEnum::Survival,
        ],
        StatEnum::Charisma => seq![
            StatEnum::Deception,
            StatEnum::Intimidation,
            StatEnum::Performance,
            StatEnum::Persuasion,
        ],
        _ => seq![],
    }
}

/// Builds the standard dependency list of a stat.
pub fn standard_deps(id: StatEnum) -> (deps: Vec<StatEnum>)
    ensures
        deps@ == spec_standard_deps(id),
{
    match id {
        StatEnum::Strength => vec![StatEnum::Athletics],
        StatEnum::Dexterity => vec![
            StatEnum::Acrobatics,
            StatEnum::SleightOfHand,
            StatEnum::Stealth,
            StatEnum::ArmorClass,
        ],
        StatEnum::Intelligence => vec![
            StatEnum::Arcana,
            StatEnum::History,
            StatEnum::Investigation,
            StatEnum::Nature,
            StatEnum::Religion,
        ],
        StatEnum::Wisdom => vec![
            StatEnum::AnimalHandling,
            StatEnum::Insight,
            StatEnum::Medicine,
            StatEnum::Perception,
            StatEnum::Survival,
        ],
        StatEnum::Charisma => vec![
            StatEnum::Deception,
            StatEnum::Intimidation,
            StatEnum::Performance,
            StatEnum::Persuasion,
        ],
        _ => Vec::new(),
    }
}

} // verus!
