//! Dice and rolling, for the roll system around the stat graph.
//!
//! Randomness comes from the `rand` crate behind two trusted wrappers; the
//! summation logic over the drawn values is verified, so a roll of `n`
//! dice is proved to land between `n` and `n` times the die's largest face.

use vstd::prelude::*;

verus! {

/// The die shapes the rules use.
#[derive(Clone, Copy, PartialEq, Eq, Debug, Structural)]
pub enum DiceType {
    D2,
    D4,
    D6,
    D8,
    D10,
    D12,
    D20,
    D100,
}

/// One more than a die's largest face: the exclusive upper bound handed to
/// the number generator.
pub open spec fn spec_upper_limit(d: DiceType) -> int {
    match d {
        DiceType::D2 => 3,
        DiceType::D4 => 5,
        DiceType::D6 => 7,
        DiceType::D8 => 9,
        DiceType::D10 => 11,
        DiceType::D12 => 13,
        DiceType::D20 => 21,
        DiceType::D100 => 101,
    }
}

impl DiceType {
    /// One more than the largest face of this die.
    pub fn upper_limit(&self) -> (u: i64)
        ensures
            u == spec_upper_limit(*self),
            3 <= u <= 101,
    {
        match self {
            DiceType::D2 => 3,
            DiceType::D4 => 5,
            DiceType::D6 => 7,
            DiceType::D8 => 9,
            DiceType::D10 => 11,
            DiceType::D12 => 13,
            DiceType::D20 => 21,
            DiceType::D100 => 101,
        }
    }
}

/// A handful of dice of one shape.
#[derive(Clone, Copy, PartialEq, Eq, Debug, Structural)]
pub struct Dice {
    /// The shape of each die.
    pub dice_type: DiceType,
    /// How many dice to roll.
    pub number: i64,
}

/// Largest number of dice one roll may sum, so the total fits.
pub const ROLL_COUNT_LIMIT: i64 = 1_000_000_000;

#[verifier::external_type_specification]
#[verifier::external_body]
pub struct ExThreadRng(rand::rngs::ThreadRng);

/// Relies on rand::thread_rng: retrieves the thread-local, system-seeded
/// generator.
#[verifier::external_body]
fn fresh_rng() -> rand::rngs::ThreadRng {
    rand::thread_rng()
}

/// Relies on rand::Rng::gen_range: returns a uniformly drawn value in
/// `[low, high)`, and panics only on an empty range, which the precondition
/// rules out. Nothing more is assumed of a random value.
#[verifier::external_body]
fn draw(rng: &mut rand::rngs::ThreadRng, low: i64, high: i64) -> (r: i64)
    requires
        low < high,
    ensures
        low <= r < high,
{
    rand::Rng::gen_range(rng, low..high)
}

/// Rolls the dice and sums the faces: each die lands between 1 and the
/// die's largest face, so `n` dice land between `n` and `n` times that
/// face. A non-positive count rolls nothing.
pub fn roll(dice: &Dice) -> (total: i64)
    requires
        dice.number <= ROLL_COUNT_LIMIT,
    ensures
        dice.number >= 0 ==> dice.number <= total <= dice.number * (spec_upper_limit(
            dice.dice_type,
        ) - 1),
        dice.number <= 0 ==> total == 0,
{
    let mut total: i64 = 0;
    let mut rng = fresh_rng();
    let upper = dice.dice_type.upper_limit();
    let mut i: i64 = 0;
    while i < dice.number
        invariant
            0 <= i,
            dice.number >= 0 ==> i <= dice.number,
            dice.number <= 0 ==> i == 0,
            dice.number <= ROLL_COUNT_LIMIT,
            3 <= upper <= 101,
            upper == spec_upper_limit(dice.dice_type),
            i <= total <= i * (upper - 1),
        decreases dice.number - i,
    {
        proof {
            assert(i * (upper - 1) <= ROLL_COUNT_LIMIT * 100) by (nonlinear_arith)
                requires
                    0 <= i <= ROLL_COUNT_LIMIT,
                    3 <= upper <= 101,
            ;
            assert((i + 1) * (upper - 1) == i * (upper - 1) + (upper - 1)) by (nonlinear_arith);
        }
        let r = draw(&mut rng, 1, upper);
        total = total + r;
        i += 1;
    }
    total
}

} // verus!
