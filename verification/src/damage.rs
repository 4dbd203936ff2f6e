//! Damage application: the pure decision the combat loop makes when a unit
//! takes damage. The surrounding event plumbing performs the consequence
//! (despawning, ending a run); this module only computes the new health
//! and which consequence is due.

use vstd::prelude::*;

use crate::stat::TOTAL_LIMIT;

verus! {

/// What follows from a unit's health after damage.
#[derive(Clone, Copy, PartialEq, Eq, Debug, Structural)]
pub enum DamageOutcome {
    /// Health stayed positive: nothing further happens.
    StillUp,
    /// A non-player unit dropped to zero or below: it despawns.
    EnemyDespawns,
    /// A player dropped to zero or below but not past twice max health:
    /// down, not dead.
    PlayerDown,
    /// A player dropped to or past twice max health below zero: dead.
    PlayerDead,
}

/// The consequence of landing on `new_health`: positive health stands; a
/// felled enemy despawns; a felled player is dead only when the overshoot
/// reaches twice max health.
pub open spec fn spec_damage_outcome(new_health: int, is_player: bool, max_total: int)
    -> DamageOutcome {
    if new_health > 0 {
        DamageOutcome::StillUp
    } else if !is_player {
        DamageOutcome::EnemyDespawns
    } else if -new_health >= 2 * max_total {
        DamageOutcome::PlayerDead
    } else {
        DamageOutcome::PlayerDown
    }
}

/// Applies damage to a unit's health: returns the new health and the due
/// consequence.
pub fn apply_damage(health: i64, amount: i64, is_player: bool, max_health_total: i64) -> (r: (
    i64,
    DamageOutcome,
))
    requires
        -TOTAL_LIMIT <= health <= TOTAL_LIMIT,
        -TOTAL_LIMIT <= amount <= TOTAL_LIMIT,
        -TOTAL_LIMIT <= max_health_total <= TOTAL_LIMIT,
    ensures
        r.0 == health - amount,
        r.1 == spec_damage_outcome(health - amount, is_player, max_health_total as int),
{
    let new_health: i64 = health - amount;
    let outcome: DamageOutcome = if new_health > 0 {
        DamageOutcome::StillUp
    } else if !is_player {
        DamageOutcome::EnemyDespawns
    } else {
        let overshoot: i64 = -new_health;
        if overshoot >= 2 * max_health_total {
            DamageOutcome::PlayerDead
        } else {
            DamageOutcome::PlayerDown
        }
    };
    (new_health, outcome)
}

} // verus!
