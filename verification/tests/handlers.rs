//! Tests for the statistics query surface.

use terracotta::stats::config::{Config, sort_periods};
use terracotta::stats::handlers::{get_stats, get_stats_history};
use terracotta::stats::middleware::{Context, build_metrics};
use terracotta::stats::requests::GetStatsHistoryParams;
use terracotta::stats::state::{AppStats, AppStatsTotals};
use terracotta::stats::worker::{
    Accumulators, Endpoint, StatsForPeriod, stats_processor,
};

const T0: i64 = 1_700_000_000;

fn full_periods() -> Vec<(String, u64)> {
    vec![
        ("second".to_string(), 1),
        ("minute".to_string(), 60),
        ("hour".to_string(), 3_600),
        ("day".to_string(), 86_400),
    ]
}

fn prepared_state(start: i64) -> (Config, AppStats) {
    let mut config = Config::default();
    config.periods = full_periods();
    let mut totals = AppStatsTotals::new();
    totals.codes = vec![(200, 5), (401, 4), (404, 3), (500, 2)];
    totals.endpoints = vec![(
        Endpoint { method: "GET".to_string(), path: "/api/stats".to_string() },
        StatsForPeriod {
            started_at: start,
            total: 5_000,
            maximum: 1_000,
            minimum: 100,
            count: 10,
        },
    )];
    let mut stats = AppStats::new(start, 86_400, 86_400, 86_400);
    stats.totals = totals;
    stats.last_second = start + 95;
    (config, stats)
}

#[test]
fn stats() {
    // An overview over a prepared state, 99 seconds after start.
    let start = T0 - 99;
    let (config, stats) = prepared_state(start);
    let overview = get_stats(&config, &stats, T0, 5, 10);
    assert_eq!(overview.started_at, start);
    assert_eq!(overview.last_second, start + 95);
    assert_eq!(overview.uptime, 99);
    assert_eq!(overview.active, 5);
    assert_eq!(overview.requests, 10);
    assert_eq!(overview.codes, vec![(200, 5), (401, 4), (404, 3), (500, 2)]);
    // Empty buffers: every named period folds to the empty aggregate,
    // and the map ends with the all-time aggregate under "all".
    let names: Vec<&str> = overview.times.iter().map(|(n, _)| n.as_str()).collect();
    assert_eq!(names, vec!["second", "minute", "hour", "day", "all"]);
    for (_, agg) in &overview.times[..4] {
        assert_eq!(agg.count, 0);
    }
    assert_eq!(overview.times[4].1, stats.totals.times);
    assert_eq!(overview.endpoints.len(), 1);
    assert_eq!(overview.endpoints[0].0.path, "/api/stats");
    assert_eq!(overview.endpoints[0].1.count, 10);
    assert_eq!(overview.connections.len(), 5);
    assert_eq!(overview.memory.len(), 5);
}

#[test]
fn stats_history() {
    // A history query over a state holding one buffer entry per area.
    let start = T0 - 99;
    let (_config, mut stats) = prepared_state(start);
    stats.buffers.responses.push_front(StatsForPeriod::default());
    stats.buffers.connections.push_front(StatsForPeriod::default());
    stats.buffers.memory.push_front(StatsForPeriod::default());
    let params = GetStatsHistoryParams::default();
    let history = get_stats_history(&stats, &params);
    assert_eq!(history.last_second, start + 95);
    assert_eq!(history.times, vec![StatsForPeriod::default()]);
    assert_eq!(history.connections, vec![StatsForPeriod::default()]);
    assert_eq!(history.memory, vec![StatsForPeriod::default()]);
}

fn run_seconds(config: &Config, stats: &mut AppStats, acc: &mut Accumulators, seconds: i64) {
    // One 1000us request per second, each closed by the following tick.
    for t in 0..seconds {
        let started = (T0 + t) * 1_000_000 + 100_000;
        let m = build_metrics(
            Endpoint { path: "/".to_string(), method: "GET".to_string() },
            &Context::new(started),
            started + 1_000,
            200,
            1,
            1_024,
        );
        let _ = stats_processor(config, Some(m), T0 + t, acc, stats);
        let _ = stats_processor(config, None, T0 + t + 1, acc, stats);
    }
}

#[test]
fn period_fold_windows() {
    // periods {second: 1, minute: 60}; after 90 one-request-per-second
    // samples of 1000us each, the folds cover 1, 60 and 90 samples.
    let mut config = Config::default();
    config.periods = vec![("second".to_string(), 1), ("minute".to_string(), 60)];
    let mut stats = AppStats::new(T0, 86_400, 86_400, 86_400);
    let mut acc = Accumulators::new(T0);
    run_seconds(&config, &mut stats, &mut acc, 90);
    let overview = get_stats(&config, &stats, T0 + 90, 0, 90);
    let second = &overview.times[0];
    assert_eq!(second.0, "second");
    assert_eq!(second.1.count, 1);
    assert_eq!(second.1.total, 1_000);
    let minute = &overview.times[1];
    assert_eq!(minute.0, "minute");
    assert_eq!(minute.1.count, 60);
    assert_eq!(minute.1.total, 60_000);
    let all = &overview.times[2];
    assert_eq!(all.0, "all");
    assert_eq!(all.1.count, 90);
    assert_eq!(all.1.total, 90_000);
}

#[test]
fn history_limit_and_order() {
    // After 100 seconds of activity, a limited query returns the newest
    // ten entries, strictly one second apart, newest first.
    let config = Config::default();
    let mut stats = AppStats::new(T0, 86_400, 86_400, 86_400);
    let mut acc = Accumulators::new(T0);
    run_seconds(&config, &mut stats, &mut acc, 100);
    let params = GetStatsHistoryParams {
        buffer: Some(terracotta::stats::requests::MeasurementType::Times),
        from: None,
        limit: Some(10),
    };
    let history = get_stats_history(&stats, &params);
    assert_eq!(history.times.len(), 10);
    assert_eq!(history.connections.len(), 0);
    assert_eq!(history.memory.len(), 0);
    assert_eq!(history.times[0].started_at, history.last_second);
    for pair in history.times.windows(2) {
        assert_eq!(pair[0].started_at - pair[1].started_at, 1);
    }
}

#[test]
fn history_from_cuts_older_entries() {
    let config = Config::default();
    let mut stats = AppStats::new(T0, 86_400, 86_400, 86_400);
    let mut acc = Accumulators::new(T0);
    run_seconds(&config, &mut stats, &mut acc, 20);
    let params = GetStatsHistoryParams {
        buffer: None,
        from: Some(T0 + 15),
        limit: None,
    };
    let history = get_stats_history(&stats, &params);
    // Seconds T0+15 .. T0+19 survive the cut-off.
    assert_eq!(history.times.len(), 5);
    assert_eq!(history.times.last().unwrap().started_at, T0 + 15);
}

#[test]
fn history_from_and_limit_combine() {
    // Whichever constraint fires first stops the slice.
    let config = Config::default();
    let mut stats = AppStats::new(T0, 86_400, 86_400, 86_400);
    let mut acc = Accumulators::new(T0);
    run_seconds(&config, &mut stats, &mut acc, 20);
    let params = GetStatsHistoryParams {
        buffer: Some(terracotta::stats::requests::MeasurementType::Times),
        from: Some(T0 + 15),
        limit: Some(3),
    };
    let history = get_stats_history(&stats, &params);
    assert_eq!(history.times.len(), 3);
    assert_eq!(history.times[0].started_at, T0 + 19);
    let params = GetStatsHistoryParams {
        buffer: Some(terracotta::stats::requests::MeasurementType::Times),
        from: Some(T0 + 15),
        limit: Some(50),
    };
    let history = get_stats_history(&stats, &params);
    assert_eq!(history.times.len(), 5);
}

#[test]
fn zero_activity_overview_and_history() {
    // No samples, no ticks: zeroed aggregates, empty maps and arrays.
    let mut config = Config::default();
    config.periods = full_periods();
    let stats = AppStats::new(T0, 86_400, 86_400, 86_400);
    let overview = get_stats(&config, &stats, T0, 0, 0);
    assert!(overview.codes.is_empty());
    assert!(overview.endpoints.is_empty());
    for (_, agg) in &overview.times {
        assert_eq!(agg.count, 0);
        assert_eq!(agg.total, 0);
    }
    let history = get_stats_history(&stats, &GetStatsHistoryParams::default());
    assert!(history.times.is_empty());
    assert!(history.connections.is_empty());
    assert!(history.memory.is_empty());
}

#[test]
fn overview_after_single_request() {
    // The single-request scenario seen through the overview.
    let config = Config::default();
    let mut stats = AppStats::new(T0, 86_400, 86_400, 86_400);
    let mut acc = Accumulators::new(T0);
    let started = T0 * 1_000_000 + 100_000;
    let m = build_metrics(
        Endpoint { path: "/".to_string(), method: "GET".to_string() },
        &Context::new(started),
        started + 150_000,
        200,
        1,
        1_048_576,
    );
    let _ = stats_processor(&config, Some(m), T0, &mut acc, &mut stats);
    let _ = stats_processor(&config, None, T0 + 1, &mut acc, &mut stats);
    let overview = get_stats(&config, &stats, T0 + 1, 0, 1);
    assert_eq!(overview.requests, 1);
    assert_eq!(overview.active, 0);
    assert_eq!(overview.uptime, 1);
    assert_eq!(overview.last_second, T0);
    assert_eq!(overview.codes, vec![(200, 1)]);
    // With no named periods the map is just the all-time aggregate.
    assert_eq!(overview.times.len(), 1);
    let (name, all) = &overview.times[0];
    assert_eq!(name, "all");
    assert_eq!(all.count, 1);
    assert_eq!(all.total, 150_000);
    assert_eq!(all.maximum, 150_000);
    assert_eq!(all.minimum, 150_000);
}

#[test]
fn sort_periods_orders_by_window() {
    let sorted = sort_periods(vec![
        ("day".to_string(), 86_400),
        ("second".to_string(), 1),
        ("hour".to_string(), 3_600),
        ("minute".to_string(), 60),
    ]);
    let names: Vec<&str> = sorted.iter().map(|(n, _)| n.as_str()).collect();
    assert_eq!(names, vec!["second", "minute", "hour", "day"]);
}
