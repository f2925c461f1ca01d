//! Tests for the aggregator worker's processing step.

use terracotta::stats::config::Config;
use terracotta::stats::middleware::{Context, build_metrics};
use terracotta::stats::state::AppStats;
use terracotta::stats::worker::{Accumulators, Endpoint, ResponseMetrics, stats_processor};

const T0: i64 = 1_700_000_000;

fn test_config() -> Config {
    Config::default()
}

fn endpoint() -> Endpoint {
    Endpoint { path: "/api/stats".to_string(), method: "GET".to_string() }
}

fn metrics_at(offset_us: i64, taken_us: i64, status: u16) -> ResponseMetrics {
    let started = T0 * 1_000_000 + offset_us;
    build_metrics(endpoint(), &Context::new(started), started + taken_us, status, 1, 1_048_576)
}

fn fresh() -> (AppStats, Accumulators) {
    (AppStats::new(T0, 86_400, 86_400, 86_400), Accumulators::new(T0))
}

#[test]
fn single_request_one_second() {
    // One request inside the first second, then the tick that closes it.
    let config = test_config();
    let (mut stats, mut acc) = fresh();
    let m = metrics_at(100_000, 150_000, 200);
    assert_eq!(m.time_taken, 150_000);
    assert_eq!(m.started_at, T0);
    let msg = stats_processor(&config, Some(m), T0, &mut acc, &mut stats);
    assert!(msg.is_none());
    assert_eq!(stats.buffers.responses.len(), 0);
    let msg = stats_processor(&config, None, T0 + 1, &mut acc, &mut stats);
    let msg = msg.expect("a completed non-idle second is broadcast");
    assert_eq!(msg.times.count, 1);
    assert_eq!(msg.times.total, 150_000);
    assert_eq!(msg.times.started_at, T0);
    assert_eq!(stats.buffers.responses.len(), 1);
    assert_eq!(stats.buffers.responses[0].count, 1);
    assert_eq!(stats.last_second, T0);
    assert_eq!(stats.totals.codes, vec![(200, 1)]);
    assert_eq!(stats.totals.times.count, 1);
    assert_eq!(stats.totals.times.total, 150_000);
    assert_eq!(stats.totals.times.maximum, 150_000);
    assert_eq!(stats.totals.times.minimum, 150_000);
}

#[test]
fn two_requests_same_second() {
    let config = test_config();
    let (mut stats, mut acc) = fresh();
    let _ = stats_processor(&config, Some(metrics_at(100_000, 50_000, 200)), T0, &mut acc, &mut stats);
    let _ = stats_processor(&config, Some(metrics_at(400_000, 150_000, 500)), T0, &mut acc, &mut stats);
    let msg = stats_processor(&config, None, T0 + 1, &mut acc, &mut stats);
    let msg = msg.expect("the second held samples");
    assert_eq!(msg.times.count, 2);
    assert_eq!(msg.times.total, 200_000);
    assert_eq!(msg.times.total / msg.times.count as u128, 100_000);
    assert_eq!(msg.times.maximum, 150_000);
    assert_eq!(msg.times.minimum, 50_000);
    assert_eq!(stats.totals.codes, vec![(200, 1), (500, 1)]);
    assert_eq!(stats.buffers.responses[0].count, 2);
    assert_eq!(stats.buffers.responses[0].total, 200_000);
}

#[test]
fn idle_gap_fills_with_empty_entries() {
    // A request in the first second, nothing for two seconds, then a
    // request in the fourth second: the gap appears as zero-count
    // entries and exactly two messages go out.
    let config = test_config();
    let (mut stats, mut acc) = fresh();
    let mut messages = 0;
    if stats_processor(&config, Some(metrics_at(500_000, 1_000, 200)), T0, &mut acc, &mut stats)
        .is_some()
    {
        messages += 1;
    }
    for tick in 1..=3 {
        if stats_processor(&config, None, T0 + tick, &mut acc, &mut stats).is_some() {
            messages += 1;
        }
    }
    if stats_processor(
        &config,
        Some(metrics_at(3_500_000, 1_000, 200)),
        T0 + 3,
        &mut acc,
        &mut stats,
    )
    .is_some()
    {
        messages += 1;
    }
    if stats_processor(&config, None, T0 + 4, &mut acc, &mut stats).is_some() {
        messages += 1;
    }
    assert_eq!(messages, 2);
    let counts: Vec<u64> = stats.buffers.responses.iter().map(|e| e.count).collect();
    assert_eq!(counts, vec![1, 0, 0, 1]);
    let seconds: Vec<i64> = stats.buffers.responses.iter().map(|e| e.started_at).collect();
    assert_eq!(seconds, vec![T0 + 3, T0 + 2, T0 + 1, T0]);
}

#[test]
fn tick_alone_advances_without_message() {
    let config = test_config();
    let (mut stats, mut acc) = fresh();
    let msg = stats_processor(&config, None, T0 + 1, &mut acc, &mut stats);
    assert!(msg.is_none());
    assert_eq!(stats.buffers.responses.len(), 1);
    assert_eq!(stats.buffers.responses[0].count, 0);
    assert_eq!(stats.last_second, T0);
}

#[test]
fn last_second_is_monotone() {
    let config = test_config();
    let (mut stats, mut acc) = fresh();
    let mut previous = stats.last_second;
    for tick in 1..=5 {
        let _ = stats_processor(&config, None, T0 + tick, &mut acc, &mut stats);
        assert!(stats.last_second >= previous);
        previous = stats.last_second;
    }
    assert_eq!(stats.last_second, T0 + 4);
}

#[test]
fn clock_regression_folds_into_current_second() {
    // A sample whose second lies before the current one is folded into
    // the current accumulators; no committed entry is rewritten.
    let config = test_config();
    let (mut stats, mut acc) = fresh();
    let _ = stats_processor(&config, None, T0 + 1, &mut acc, &mut stats);
    let _ = stats_processor(&config, None, T0 + 2, &mut acc, &mut stats);
    assert_eq!(stats.buffers.responses.len(), 2);
    // This sample started in the very first second, long since committed.
    let stale = metrics_at(200_000, 9_000, 200);
    assert!(stale.started_at < acc.current_second);
    let msg = stats_processor(&config, Some(stale), T0 + 2, &mut acc, &mut stats);
    assert!(msg.is_none());
    assert_eq!(stats.buffers.responses.len(), 2);
    assert_eq!(stats.buffers.responses[0].count, 0);
    assert_eq!(acc.timing.count, 1);
    // The next tick commits it under the current second.
    let msg = stats_processor(&config, None, T0 + 3, &mut acc, &mut stats);
    assert!(msg.is_some());
    assert_eq!(stats.buffers.responses[0].count, 1);
    assert_eq!(stats.buffers.responses[0].started_at, T0 + 2);
}

#[test]
fn buffer_overflow_drops_oldest() {
    // A five-entry timing buffer fed ten one-per-second samples keeps
    // the newest five; the oldest retained entry is the sixth sample's.
    let mut config = test_config();
    config.timing_buffer_size = 5;
    let mut stats = AppStats::new(T0, 5, 86_400, 86_400);
    let mut acc = Accumulators::new(T0);
    for t in 0..10 {
        let offset = t * 1_000_000 + 100_000;
        let _ = stats_processor(
            &config,
            Some(metrics_at(offset, 1_000, 200)),
            T0 + t,
            &mut acc,
            &mut stats,
        );
        let _ = stats_processor(&config, None, T0 + t + 1, &mut acc, &mut stats);
    }
    assert_eq!(stats.buffers.responses.len(), 5);
    let newest = stats.buffers.responses[0];
    let oldest = stats.buffers.responses[4];
    assert_eq!(newest.started_at, T0 + 9);
    assert_eq!(oldest.started_at, T0 + 5);
    assert_eq!(oldest.count, 1);
    // The other buffers keep their own capacities.
    assert_eq!(stats.buffers.connections.len(), 10);
}

#[test]
fn distinct_paths_stay_distinct() {
    // No normalisation: a trailing slash makes a different endpoint.
    let config = test_config();
    let (mut stats, mut acc) = fresh();
    let started = T0 * 1_000_000 + 100_000;
    let a = build_metrics(
        Endpoint { path: "/users/42".to_string(), method: "GET".to_string() },
        &Context::new(started),
        started + 10,
        200,
        1,
        0,
    );
    let b = build_metrics(
        Endpoint { path: "/users/42/".to_string(), method: "GET".to_string() },
        &Context::new(started),
        started + 10,
        200,
        1,
        0,
    );
    let _ = stats_processor(&config, Some(a), T0, &mut acc, &mut stats);
    let _ = stats_processor(&config, Some(b), T0, &mut acc, &mut stats);
    assert_eq!(stats.totals.endpoints.len(), 2);
}

#[test]
fn totals_track_endpoints_and_codes() {
    let config = test_config();
    let (mut stats, mut acc) = fresh();
    let _ = stats_processor(&config, Some(metrics_at(100_000, 10, 200)), T0, &mut acc, &mut stats);
    let _ = stats_processor(&config, Some(metrics_at(200_000, 30, 404)), T0, &mut acc, &mut stats);
    let _ = stats_processor(&config, Some(metrics_at(300_000, 50, 200)), T0, &mut acc, &mut stats);
    assert_eq!(stats.totals.codes, vec![(200, 2), (404, 1)]);
    assert_eq!(stats.totals.endpoints.len(), 1);
    let (ep, agg) = &stats.totals.endpoints[0];
    assert_eq!(ep.method, "GET");
    assert_eq!(ep.path, "/api/stats");
    assert_eq!(agg.count, 3);
    assert_eq!(agg.total, 90);
    assert_eq!(agg.minimum, 10);
    assert_eq!(agg.maximum, 50);
}
