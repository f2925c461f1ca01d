//! Tests for the live-feed state machine.

use terracotta::stats::handlers::{FeedAction, FeedEvent, FeedIncoming, FeedState, feed_step};
use terracotta::stats::requests::MeasurementType;
use terracotta::stats::worker::{AllStatsForPeriod, StatsForPeriod};

const NOW: i64 = 1_700_000_000_000_000;

fn data() -> AllStatsForPeriod {
    AllStatsForPeriod {
        times: StatsForPeriod::initialize(5),
        connections: StatsForPeriod::initialize(6),
        memory: StatsForPeriod::initialize(7),
    }
}

#[test]
fn ping_tick_sends_ping_and_records_time() {
    let mut state = FeedState::new(NOW);
    let action = feed_step(&mut state, FeedEvent::PingTick, NOW + 1, 10, None);
    assert!(matches!(action, FeedAction::SendPing));
    assert_eq!(state.last_ping, Some(NOW + 1));
    assert_eq!(state.last_pong, NOW);
}

#[test]
fn pong_refreshes_and_prevents_timeout() {
    let mut state = FeedState::new(NOW);
    let _ = feed_step(&mut state, FeedEvent::PingTick, NOW, 10, None);
    let action = feed_step(&mut state, FeedEvent::Incoming(FeedIncoming::Pong), NOW + 1_000_000, 10, None);
    assert!(matches!(action, FeedAction::Ignore));
    assert_eq!(state.last_pong, NOW + 1_000_000);
    // Long after the ping, the pong already came back: no timeout.
    let action = feed_step(&mut state, FeedEvent::TimeoutTick, NOW + 60_000_000, 10, None);
    assert!(matches!(action, FeedAction::Ignore));
}

#[test]
fn unanswered_ping_times_out() {
    let mut state = FeedState::new(NOW);
    let ping_at = NOW + 1_000_000;
    let _ = feed_step(&mut state, FeedEvent::PingTick, ping_at, 10, None);
    // Within the ten-second window nothing happens.
    let action = feed_step(&mut state, FeedEvent::TimeoutTick, ping_at + 9_000_000, 10, None);
    assert!(matches!(action, FeedAction::Ignore));
    // Past it, the stream is closed.
    let action = feed_step(&mut state, FeedEvent::TimeoutTick, ping_at + 11_000_000, 10, None);
    assert!(matches!(action, FeedAction::Close));
}

#[test]
fn incoming_ping_is_answered_with_its_payload() {
    let mut state = FeedState::new(NOW);
    let action = feed_step(
        &mut state,
        FeedEvent::Incoming(FeedIncoming::Ping(vec![1, 2, 3])),
        NOW,
        10,
        None,
    );
    match action {
        FeedAction::SendPong(payload) => assert_eq!(payload, vec![1, 2, 3]),
        other => panic!("expected a pong, got {other:?}"),
    }
}

#[test]
fn close_and_error_end_the_stream() {
    let mut state = FeedState::new(NOW);
    let action = feed_step(&mut state, FeedEvent::Incoming(FeedIncoming::Close), NOW, 10, None);
    assert!(matches!(action, FeedAction::Close));
    let action = feed_step(&mut state, FeedEvent::Incoming(FeedIncoming::Error), NOW, 10, None);
    assert!(matches!(action, FeedAction::Close));
}

#[test]
fn unexpected_frames_are_ignored() {
    let mut state = FeedState::new(NOW);
    let action = feed_step(&mut state, FeedEvent::Incoming(FeedIncoming::Text), NOW, 10, None);
    assert!(matches!(action, FeedAction::Ignore));
    let action = feed_step(&mut state, FeedEvent::Incoming(FeedIncoming::Binary), NOW, 10, None);
    assert!(matches!(action, FeedAction::Ignore));
}

#[test]
fn data_is_sent_whole_without_a_scope() {
    let mut state = FeedState::new(NOW);
    let action = feed_step(&mut state, FeedEvent::Data(data()), NOW, 10, None);
    match action {
        FeedAction::SendAll(all) => assert_eq!(all, data()),
        other => panic!("expected all three aggregates, got {other:?}"),
    }
}

#[test]
fn data_is_narrowed_to_the_scope() {
    let mut state = FeedState::new(NOW);
    let action = feed_step(
        &mut state,
        FeedEvent::Data(data()),
        NOW,
        10,
        Some(MeasurementType::Memory),
    );
    match action {
        FeedAction::SendOne(one) => assert_eq!(one, data().memory),
        other => panic!("expected one aggregate, got {other:?}"),
    }
}
