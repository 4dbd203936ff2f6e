//! Persistent character data beside the stat graph: proficiency marks, the
//! level-derived proficiency bonus, races and their innate dark vision, and
//! the ability/skill records that pair a stat with a proficiency.

use vstd::prelude::*;

use crate::stat::Stat;
use crate::stat::SCALE;
use crate::stat::ability_modifier_of;
use crate::stat::spec_ability_modifier;

verus! {

/// How practiced a unit is with an ability or skill. Used by the roll
/// system, not by aggregation, but part of the unit's persistent data.
#[derive(Clone, Copy, PartialEq, Eq, Debug, Structural)]
pub enum Proficiency {
    /// No training: rolls add no proficiency bonus.
    Untrained,
    /// Proficient: rolls add the proficiency bonus once.
    Proficient,
    /// Expertise: rolls add the proficiency bonus twice.
    Expert,
}

/// A unit's proficiency bonus, derived from its level.
#[derive(Clone, Copy, PartialEq, Eq, Debug, Structural)]
pub struct ProficiencyBonus(pub i64);

impl ProficiencyBonus {
    /// The bonus starts at 2 and grows by one every four levels.
    pub fn from_level(level: i64) -> (b: ProficiencyBonus)
        requires
            level >= 1,
        ensures
            b.0 == 2 + (level - 1) / 4,
    {
        ProficiencyBonus(2 + (level - 1).checked_div_euclid(4).unwrap())
    }
}

/// An ability score: a stat paired with a saving-throw proficiency.
#[derive(Clone, Debug, PartialEq)]
pub struct Ability {
    /// The ability's value node.
    pub stat: Stat,
    /// Saving-throw proficiency with this ability.
    pub proficiency: Proficiency,
}

impl Ability {
    /// The derived ability modifier: the floor of `(total - 10) / 2` in
    /// whole points, fed as the external baseline into dependent stats.
    pub fn calculate_modifier(&self) -> (m: i64)
        requires
            self.stat.wf(),
        ensures
            m == spec_ability_modifier(self.stat.total as int),
    {
        ability_modifier_of(self.stat.total)
    }
}

/// A skill: a stat paired with a check proficiency.
#[derive(Clone, Debug, PartialEq)]
pub struct Skill {
    /// The skill's value node.
    pub stat: Stat,
    /// Check proficiency with this skill.
    pub proficiency: Proficiency,
}

/// The playable races.
#[derive(Clone, Copy, PartialEq, Eq, Debug, Structural)]
pub enum Race {
    DragonBorn,
    HillDwarf,
    MountainDwarf,
    HighElf,
    WoodElf,
    DarkElf,
    ForestGnome,
    RockGnome,
    HalfElf,
    LightfootHalfling,
    StoutHalfling,
    HalfOrc,
    Human,
    Tiefling,
}

/// Innate dark vision range by race, in thousandths of a point: most races
/// with dark vision see 60 units, dark elves 120, and the rest none.
pub open spec fn spec_race_dark_vision(race: Race) -> Option<int> {
    match race {
        Race::HillDwarf => Some(60 * SCALE as int),
        Race::MountainDwarf => Some(60 * SCALE as int),
        Race::HighElf => Some(60 * SCALE as int),
        Race::WoodElf => Some(60 * SCALE as int),
        Race::DarkElf => Some(120 * SCALE as int),
        Race::HalfElf => Some(60 * SCALE as int),
        Race::RockGnome => Some(60 * SCALE as int),
        Race::ForestGnome => Some(60 * SCALE as int),
        Race::HalfOrc => Some(60 * SCALE as int),
        Race::Tiefling => Some(60 * SCALE as int),
        _ => None,
    }
}

/// The dark vision base a race starts with, if any.
pub fn race_dark_vision(race: Race) -> (r: Option<i64>)
    ensures
        crate::stat::opt_val(r) == spec_race_dark_vision(race),
{
    match race {
        Race::HillDwarf => Some(60 * SCALE),
        Race::MountainDwarf => Some(60 * SCALE),
        Race::HighElf => Some(60 * SCALE),
        Race::WoodElf => Some(60 * SCALE),
        Race::DarkElf => Some(120 * SCALE),
        Race::HalfElf => Some(60 * SCALE),
        Race::RockGnome => Some(60 * SCALE),
        Race::ForestGnome => Some(60 * SCALE),
        Race::HalfOrc => Some(60 * SCALE),
        Race::Tiefling => Some(60 * SCALE),
        _ => None,
    }
}

} // verus!
