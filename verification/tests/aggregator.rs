//! Aggregation algorithm behavior, exercised through `Stat::calculate_total`
//! and `aggregate_value`. Values are fixed-point thousandths: `10_000` is
//! ten points, `100` is a `+0.1` multiplier share.

use statgraph::stat::aggregate_value;
use statgraph::stat::Stat;
use statgraph::stat::SUM_LIMIT;
use statgraph::stat::TOTAL_LIMIT;
use statgraph::stat::VALUE_LIMIT;

#[test]
fn additive_multiplicative_composition() {
    // base 10, Add {+2, +3}, Mult {+0.1, +0.1}, baseline 0:
    // (10 + 2 + 3) * 1.2 = 18
    let mut s = Stat::new(10_000, Vec::new());
    let changed = s.calculate_total(None, None, 5_000, 200, 0);
    assert!(changed);
    assert_eq!(s.total, 18_000);
    assert_eq!(s.base, 10_000);
}

#[test]
fn baseline_enters_before_multiplier() {
    // (10 + 2 + baseline 3) * 1.0 = 15
    let mut s = Stat::new(10_000, Vec::new());
    s.calculate_total(None, None, 2_000, 0, 3_000);
    assert_eq!(s.total, 15_000);
}

#[test]
fn replace_ignores_everything_else() {
    let mut s = Stat::new(10_000, Vec::new());
    let changed = s.calculate_total(Some(42_000), Some(99_000), 5_000, 500, 7_000);
    assert!(changed);
    assert_eq!(s.total, 42_000);
}

#[test]
fn replace_equal_to_total_reports_unchanged() {
    let mut s = Stat::new(42_000, Vec::new());
    let changed = s.calculate_total(Some(42_000), None, 5_000, 500, 0);
    assert!(!changed);
    assert_eq!(s.total, 42_000);
}

#[test]
fn best_of_is_a_floor() {
    // computed 12, offers {15, 9} -> 15
    let mut s = Stat::new(12_000, Vec::new());
    s.calculate_total(None, Some(15_000), 0, 0, 0);
    assert_eq!(s.total, 15_000);
}

#[test]
fn best_of_is_not_a_cap() {
    // computed 12, offer {5} -> 12
    let mut s = Stat::new(12_000, Vec::new());
    let changed = s.calculate_total(None, Some(5_000), 0, 0, 0);
    assert_eq!(s.total, 12_000);
    assert!(!changed);
}

#[test]
fn no_modifiers_keeps_seeded_total() {
    let mut s = Stat::new(9_000, Vec::new());
    let changed = s.calculate_total(None, None, 0, 0, 0);
    assert!(!changed);
    assert_eq!(s.total, 9_000);
}

#[test]
fn scaling_rounds_toward_negative_infinity() {
    // 0.005 * 1.1 = 0.0055 -> 0.005 (floor)
    let mut s = Stat::new(5, Vec::new());
    s.calculate_total(None, None, 0, 100, 0);
    assert_eq!(s.total, 5);
    // -0.005 * 1.1 = -0.0055 -> -0.006 (floor)
    let mut n = Stat::new(-5, Vec::new());
    n.calculate_total(None, None, 0, 100, 0);
    assert_eq!(n.total, -6);
}

#[test]
fn oversized_results_clamp_at_the_total_limit() {
    let t = aggregate_value(VALUE_LIMIT, None, None, SUM_LIMIT, SUM_LIMIT, 0);
    assert_eq!(t, TOTAL_LIMIT);
    let t = aggregate_value(-VALUE_LIMIT, None, None, -SUM_LIMIT, SUM_LIMIT, 0);
    assert_eq!(t, -TOTAL_LIMIT);
}

#[test]
fn negative_multiplier_shrinks() {
    // 20 * (1 - 0.5) = 10
    let mut s = Stat::new(20_000, Vec::new());
    s.calculate_total(None, None, 0, -500, 0);
    assert_eq!(s.total, 10_000);
}
