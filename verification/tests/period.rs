//! Tests for the period aggregate value type.

use terracotta::stats::worker::StatsForPeriod;

fn sample(value: u64) -> StatsForPeriod {
    StatsForPeriod::initialize(value)
}

#[test]
fn initialize_sets_all_fields() {
    let s = sample(150_000);
    assert_eq!(s.count, 1);
    assert_eq!(s.total, 150_000);
    assert_eq!(s.maximum, 150_000);
    assert_eq!(s.minimum, 150_000);
}

#[test]
fn default_is_empty() {
    let d = StatsForPeriod::default();
    assert_eq!(d.count, 0);
    assert_eq!(d.total, 0);
    assert_eq!(d.maximum, 0);
    assert_eq!(d.minimum, 0);
    assert_eq!(d.started_at, 0);
}

#[test]
fn update_is_weighted_mean() {
    // Two samples in one second: 50000us and 150000us.
    let mut acc = StatsForPeriod::default();
    acc.update(&sample(50_000));
    acc.update(&sample(150_000));
    assert_eq!(acc.count, 2);
    assert_eq!(acc.total, 200_000);
    assert_eq!(acc.total / acc.count as u128, 100_000);
    assert_eq!(acc.maximum, 150_000);
    assert_eq!(acc.minimum, 50_000);
}

#[test]
fn update_with_empty_changes_nothing() {
    let mut acc = sample(42);
    acc.started_at = 77;
    let before = acc;
    acc.update(&StatsForPeriod::default());
    assert_eq!(acc, before);
}

#[test]
fn update_into_empty_copies_extremes() {
    let mut acc = StatsForPeriod::default();
    acc.started_at = 99;
    let mut other = sample(7);
    other.started_at = 55;
    acc.update(&other);
    assert_eq!(acc.minimum, 7);
    assert_eq!(acc.maximum, 7);
    assert_eq!(acc.count, 1);
    assert_eq!(acc.total, 7);
    // The left-hand side's start time is preserved.
    assert_eq!(acc.started_at, 99);
}

#[test]
fn mean_stays_within_extremes() {
    let mut acc = StatsForPeriod::default();
    for v in [3u64, 9, 4, 100, 57, 12] {
        acc.update(&sample(v));
    }
    assert_eq!(acc.count, 6);
    assert_eq!(acc.minimum, 3);
    assert_eq!(acc.maximum, 100);
    let mean = acc.total / acc.count as u128;
    assert!(acc.minimum as u128 <= mean && mean <= acc.maximum as u128);
}

#[test]
fn fold_reports_exact_statistics() {
    // Count, sum and extremes of a folded sequence match the values.
    let values = [17u64, 3, 250, 3, 99];
    let mut acc = StatsForPeriod::default();
    for v in values {
        acc.update(&StatsForPeriod::initialize(v));
    }
    assert_eq!(acc.count, values.len() as u64);
    assert_eq!(acc.total, values.iter().map(|v| *v as u128).sum::<u128>());
    assert_eq!(acc.maximum, 250);
    assert_eq!(acc.minimum, 3);
}

#[test]
fn count_saturates_without_panicking() {
    let mut acc = StatsForPeriod {
        started_at: 0,
        total: 10,
        maximum: 10,
        minimum: 10,
        count: u64::MAX,
    };
    acc.update(&sample(10));
    assert_eq!(acc.count, u64::MAX);
    // The clamped total keeps the mean between the extremes.
    let mean = acc.total / acc.count as u128;
    assert!(acc.minimum as u128 <= mean && mean <= acc.maximum as u128);
}

#[test]
fn merge_of_folds_equals_fold_of_concatenation() {
    // Folding two windows and merging equals folding all values in order.
    let xs = [5u64, 80, 2];
    let ys = [44u64, 1, 9, 31];
    let mut left = StatsForPeriod::default();
    for v in xs {
        left.update(&StatsForPeriod::initialize(v));
    }
    let mut right = StatsForPeriod::default();
    for v in ys {
        right.update(&StatsForPeriod::initialize(v));
    }
    let mut both = StatsForPeriod::default();
    for v in xs.iter().chain(ys.iter()) {
        both.update(&StatsForPeriod::initialize(*v));
    }
    left.update(&right);
    assert_eq!(left, both);
}
