//! The atomic value node and the modifier-aggregation arithmetic.
//!
//! A [`Stat`] holds a character-sheet-authored `base`, a derived `total`,
//! and the list of stats to recompute whenever `total` changes. All values
//! are fixed-point integers counting thousandths of a point ([`SCALE`]), so
//! `0.1` is written `100` and `10` is written `10_000`.
//!
//! [`Stat::calculate_total`] reduces one stat's already-gathered modifier
//! summary into a new total, exactly as [`spec_aggregate`] states: a
//! `Replace` value wins outright; otherwise base, additive sum and external
//! baseline are added, the multiplicative sum is applied once, the best
//! `BestOf` offer acts as a floor, and the result is clamped into the
//! representable range.

use vstd::prelude::*;

use crate::ids::StatEnum;

verus! {

/// Fixed-point scale: stat values count thousandths of a point.
pub const SCALE: i64 = 1000;

/// Largest magnitude of an authored value: a stat's base, a modifier's
/// value, a `Replace` or `BestOf` offer. One billion points.
pub const VALUE_LIMIT: i64 = 1_000_000_000_000;

/// Largest magnitude of a derived total; aggregation clamps its result into
/// `[-TOTAL_LIMIT, TOTAL_LIMIT]`, so every stored total stays representable.
pub const TOTAL_LIMIT: i64 = 1_000_000_000_000_000;

/// Largest number of modifiers that may be attached to one unit at a time.
pub const MOD_COUNT_LIMIT: usize = 65536;

/// Largest magnitude of an additive or multiplicative modifier sum: at most
/// [`MOD_COUNT_LIMIT`] modifiers, each bounded by [`VALUE_LIMIT`].
pub const SUM_LIMIT: i64 = 65536 * 1_000_000_000_000;

/// Clamps a computed total into the representable range.
pub open spec fn clamp_total(v: int) -> int {
    if v > TOTAL_LIMIT as int {
        TOTAL_LIMIT as int
    } else if v < -(TOTAL_LIMIT as int) {
        -(TOTAL_LIMIT as int)
    } else {
        v
    }
}

/// Lifts an optional machine value into the mathematical domain.
pub open spec fn opt_val(o: Option<i64>) -> Option<int> {
    match o {
        Some(v) => Some(v as int),
        None => None,
    }
}

/// The aggregation algorithm over one stat's gathered modifier summary.
///
/// With a `Replace` offer the total is that offer and nothing else applies.
/// Otherwise the additive sum and the external baseline are added to the
/// base, the result is multiplied once by `1 + mult` (division by [`SCALE`]
/// rounds toward negative infinity), the best `BestOf` offer acts as a
/// floor, and the outcome is clamped into the representable range.
pub open spec fn spec_aggregate(
    base: int,
    replace: Option<int>,
    best: Option<int>,
    add: int,
    mult: int,
    baseline: int,
) -> int {
    match replace {
        Some(r) => r,
        None => {
            let scaled = (base + add + baseline) * (SCALE + mult) / (SCALE as int);
            let floored = match best {
                Some(b) => if b > scaled {
                    b
                } else {
                    scaled
                },
                None => scaled,
            };
            clamp_total(floored)
        },
    }
}

/// The derived ability modifier of an ability's total: the floor of
/// `(total - 10) / 2` in whole points.
pub open spec fn spec_ability_modifier(total: int) -> int {
    (total - 10 * SCALE) / (2 * SCALE) as int
}

/// Computes the derived ability modifier of a total, in whole points.
pub fn ability_modifier_of(total: i64) -> (m: i64)
    requires
        -TOTAL_LIMIT <= total <= TOTAL_LIMIT,
    ensures
        m == spec_ability_modifier(total as int),
        -600_000_000_000 <= m <= 600_000_000_000,
{
    let shifted: i64 = total - 10 * SCALE;
    proof {
        vstd::arithmetic::div_mod::lemma_fundamental_div_mod(shifted as int, 2000);
        vstd::arithmetic::div_mod::lemma_mod_bound(shifted as int, 2000);
    }
    shifted.checked_div_euclid(2 * SCALE).unwrap()
}

/// Computes the aggregation algorithm's result for one stat: the new total
/// from the stat's base and its gathered modifier summary.
pub fn aggregate_value(
    base: i64,
    replace: Option<i64>,
    best: Option<i64>,
    add: i64,
    mult: i64,
    parent_modifier: i64,
) -> (t: i64)
    requires
        -VALUE_LIMIT <= base <= VALUE_LIMIT,
        replace matches Some(r) ==> -TOTAL_LIMIT <= r <= TOTAL_LIMIT,
        -SUM_LIMIT <= add <= SUM_LIMIT,
        -SUM_LIMIT <= mult <= SUM_LIMIT,
        -TOTAL_LIMIT <= parent_modifier <= TOTAL_LIMIT,
    ensures
        t == spec_aggregate(
            base as int,
            opt_val(replace),
            opt_val(best),
            add as int,
            mult as int,
            parent_modifier as int,
        ),
        -TOTAL_LIMIT <= t <= TOTAL_LIMIT,
{
    if let Some(rep) = replace {
        return rep;
    }

    let pre: i128 = base as i128 + add as i128 + parent_modifier as i128;
    let factor: i128 = SCALE as i128 + mult as i128;
    proof {
        assert(-70_000_000_000_000_000 <= pre <= 70_000_000_000_000_000);
        assert(-70_000_000_000_000_000 <= factor <= 70_000_000_000_000_000);
        assert((-4_900_000_000_000_000_000_000_000_000_000_000 <= pre * factor
            <= 4_900_000_000_000_000_000_000_000_000_000_000)) by (nonlinear_arith)
            requires
                -70_000_000_000_000_000 <= pre <= 70_000_000_000_000_000,
                -70_000_000_000_000_000 <= factor <= 70_000_000_000_000_000,
        ;
    }
    let scaled: i128 = (pre * factor).checked_div_euclid(SCALE as i128).unwrap();
    let floored: i128 = match best {
        Some(b) => if b as i128 > scaled {
            b as i128
        } else {
            scaled
        },
        None => scaled,
    };
    if floored > TOTAL_LIMIT as i128 {
        TOTAL_LIMIT
    } else if floored < -TOTAL_LIMIT as i128 {
        -TOTAL_LIMIT
    } else {
        floored as i64
    }
}

/// One numeric attribute's derivation state: the authored base value, the
/// current effective total, and the stats to recompute whenever the total
/// changes.
#[derive(Clone, Debug, PartialEq)]
pub struct Stat {
    /// The character-sheet-authored starting value; never written by
    /// recomputation.
    pub base: i64,
    /// The current effective value: always the result of the most recent
    /// aggregation.
    pub total: i64,
    /// The stats whose aggregation must be re-run whenever `total` changes.
    pub deps: Vec<StatEnum>,
}

impl Stat {
    /// The base is an authored value and the total stays representable.
    pub open spec fn wf(self) -> bool {
        &&& -VALUE_LIMIT <= self.base <= VALUE_LIMIT
        &&& -TOTAL_LIMIT <= self.total <= TOTAL_LIMIT
    }

    /// Creates a stat whose total starts equal to its base.
    pub fn new(num: i64, deps: Vec<StatEnum>) -> (s: Stat)
        requires
            -VALUE_LIMIT <= num <= VALUE_LIMIT,
        ensures
            s.base == num,
            s.total == num,
            s.deps == deps,
            s.wf(),
    {
        Stat { base: num, total: num, deps }
    }

    /// Aggregates this stat's gathered modifier summary into a new total,
    /// mutating `total` in place and reporting whether it changed. Does not
    /// touch `deps` and triggers no cascade: that is the caller's job.
    pub fn calculate_total(
        &mut self,
        replace: Option<i64>,
        best: Option<i64>,
        add: i64,
        mult: i64,
        parent_modifier: i64,
    ) -> (changed: bool)
        requires
            old(self).wf(),
            replace matches Some(r) ==> -TOTAL_LIMIT <= r <= TOTAL_LIMIT,
            -SUM_LIMIT <= add <= SUM_LIMIT,
            -SUM_LIMIT <= mult <= SUM_LIMIT,
            -TOTAL_LIMIT <= parent_modifier <= TOTAL_LIMIT,
        ensures
            final(self).total == spec_aggregate(
                old(self).base as int,
                opt_val(replace),
                opt_val(best),
                add as int,
                mult as int,
                parent_modifier as int,
            ),
            changed == (final(self).total != old(self).total),
            final(self).base == old(self).base,
            final(self).deps == old(self).deps,
            final(self).wf(),
    {
        let new_total = aggregate_value(self.base, replace, best, add, mult, parent_modifier);
        if new_total != self.total {
            self.total = new_total;
            true
        } else {
            false
        }
    }
}

/// The mathematical shadow of a [`Stat`]: its base and total as unbounded
/// integers and its dependents as a sequence.
#[verifier::ext_equal]
pub ghost struct StatView {
    /// The authored base value.
    pub base: int,
    /// The current effective value.
    pub total: int,
    /// The stats to recompute whenever `total` changes.
    pub deps: Seq<StatEnum>,
}

impl StatView {
    /// The base is an authored value and the total stays representable.
    pub open spec fn wf(self) -> bool {
        &&& -VALUE_LIMIT <= self.base <= VALUE_LIMIT
        &&& -TOTAL_LIMIT <= self.total <= TOTAL_LIMIT
    }
}

impl View for Stat {
    type V = StatView;

    open spec fn view(&self) -> StatView {
        StatView { base: self.base as int, total: self.total as int, deps: self.deps@ }
    }
}

} // verus!
