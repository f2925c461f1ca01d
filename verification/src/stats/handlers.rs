//! The statistics query surface: overview and history computations.

use vstd::prelude::*;
use super::config::Config;
use super::requests::{GetStatsHistoryParams, MeasurementType};
use super::responses::{StatsHistoryResponse, StatsResponse};
use super::state::{AppStats, spec_entries_wf};
use super::worker::{AllStatsForPeriod, StatsForPeriod, spec_folded_entries};
use std::collections::VecDeque;

verus! {

//		Period folds

/// The aggregate reported for a named period: the fold, in newest-first
/// order, of the newest `n` buffer entries (all of them when the buffer
/// holds fewer).
pub open spec fn spec_folded_prefix(b: Seq<StatsForPeriod>, n: int) -> StatsForPeriod {
    spec_folded_entries(b.take(if n < b.len() { n } else { b.len() as int }))
}

/// Folds the newest `n` entries of a buffer into one aggregate.
pub fn fold_buffer_prefix(buffer: &VecDeque<StatsForPeriod>, n: usize) -> (r: StatsForPeriod)
    requires
        spec_entries_wf(buffer@),
    ensures
        r == spec_folded_prefix(buffer@, n as int),
        r.wf(),
{
    let limit = if n < buffer.len() {
        n
    } else {
        buffer.len()
    };
    let mut out = StatsForPeriod::default();
    let mut i: usize = 0;
    proof {
        assert(buffer@.take(0) =~= Seq::<StatsForPeriod>::empty());
    }
    while i < limit
        invariant
            0 <= i <= limit <= buffer@.len(),
            spec_entries_wf(buffer@),
            out == spec_folded_entries(buffer@.take(i as int)),
            out.wf(),
        decreases limit - i,
    {
        let entry = buffer[i];
        out.update(&entry);
        proof {
            assert(buffer@.take(i + 1).drop_last() =~= buffer@.take(i as int));
            assert(buffer@.take(i + 1).last() == buffer@[i as int]);
        }
        i = i + 1;
    }
    proof {
        assert(buffer@.take(limit as int) =~= buffer@.take(
            if n < buffer@.len() {
                n as int
            } else {
                buffer@.len() as int
            },
        ));
    }
    out
}

/// The reported period map: one entry per configured period, in the
/// configured ascending order, each folding the newest entries of the
/// buffer over that period's window, then a final `"all"` entry carrying
/// the all-time aggregate.
pub open spec fn spec_period_map(
    out: Seq<(String, StatsForPeriod)>,
    periods: Seq<(String, u64)>,
    buffer: Seq<StatsForPeriod>,
    all: StatsForPeriod,
) -> bool {
    &&& out.len() == periods.len() + 1
    &&& forall|i: int|
        0 <= i < periods.len() ==> (#[trigger] out[i]).0 == periods[i].0 && out[i].1
            == spec_folded_prefix(buffer, periods[i].1 as int)
    &&& out[periods.len() as int].0@ == "all"@
    &&& out[periods.len() as int].1 == all
}

/// Builds the period map for one buffer: a fold over each configured
/// window, then the trailing `"all"` aggregate.
fn build_period_map(
    periods: &Vec<(String, u64)>,
    buffer: &VecDeque<StatsForPeriod>,
    all: &StatsForPeriod,
) -> (out: Vec<(String, StatsForPeriod)>)
    requires
        spec_entries_wf(buffer@),
    ensures
        spec_period_map(out@, periods@, buffer@, *all),
{
    let mut out: Vec<(String, StatsForPeriod)> = Vec::new();
    let mut i: usize = 0;
    while i < periods.len()
        invariant
            0 <= i <= periods@.len(),
            spec_entries_wf(buffer@),
            out@.len() == i,
            forall|j: int|
                0 <= j < i ==> (#[trigger] out@[j]).0 == periods@[j].0 && out@[j].1
                    == spec_folded_prefix(buffer@, periods@[j].1 as int),
        decreases periods@.len() - i,
    {
        let entry = &periods[i];
        let window = if entry.1 > usize::MAX as u64 {
            usize::MAX
        } else {
            entry.1 as usize
        };
        let blen = buffer.len();
        let folded = fold_buffer_prefix(buffer, window);
        proof {
            let wn = window as int;
            let pn = periods@[i as int].1 as int;
            let bl = blen as int;
            assert(bl == buffer@.len());
            assert(buffer@.take(if wn < bl { wn } else { bl }) =~= buffer@.take(
                if pn < bl { pn } else { bl },
            ));
        }
        out.push((entry.0.clone(), folded));
        i = i + 1;
    }
    out.push(("all".to_owned(), *all));
    out
}

//		get_stats
/// Computes the application statistics overview from a consistent view
/// of the statistics data.
///
/// The period maps fold the newest entries of each ring buffer over every
/// configured window, in ascending window order, with the all-time
/// aggregate appended under `"all"`; the status-code counters and the
/// per-endpoint aggregates are copied out as they stand; the uptime is
/// the whole seconds elapsed since the application started.
pub fn get_stats(
    config: &Config,
    stats: &AppStats,
    now_second: i64,
    active: u64,
    requests: u64,
) -> (r: StatsResponse)
    requires
        stats.totals.wf(),
        spec_entries_wf(stats.buffers.responses@),
        spec_entries_wf(stats.buffers.connections@),
        spec_entries_wf(stats.buffers.memory@),
        0 <= stats.started_at <= now_second,
    ensures
        r.started_at == stats.started_at,
        r.last_second == stats.last_second,
        r.uptime == now_second - stats.started_at,
        r.active == active,
        r.requests == requests,
        r.codes@ == stats.totals.codes@,
        r.endpoints@ == stats.totals.endpoints@,
        spec_period_map(r.times@, config.periods@, stats.buffers.responses@, stats.totals.times),
        spec_period_map(
            r.connections@,
            config.periods@,
            stats.buffers.connections@,
            stats.totals.connections,
        ),
        spec_period_map(
            r.memory@,
            config.periods@,
            stats.buffers.memory@,
            stats.totals.memory,
        ),
{
    let times = build_period_map(&config.periods, &stats.buffers.responses, &stats.totals.times);
    let connections = build_period_map(
        &config.periods,
        &stats.buffers.connections,
        &stats.totals.connections,
    );
    let memory = build_period_map(&config.periods, &stats.buffers.memory, &stats.totals.memory);
    let mut codes: Vec<(u16, u64)> = Vec::new();
    let mut i: usize = 0;
    while i < stats.totals.codes.len()
        invariant
            0 <= i <= stats.totals.codes@.len(),
            codes@ == stats.totals.codes@.take(i as int),
        decreases stats.totals.codes@.len() - i,
    {
        codes.push(stats.totals.codes[i]);
        proof {
            assert(stats.totals.codes@.take(i + 1) =~= stats.totals.codes@.take(i as int).push(
                stats.totals.codes@[i as int],
            ));
        }
        i = i + 1;
    }
    let mut endpoints: Vec<(super::worker::Endpoint, StatsForPeriod)> = Vec::new();
    let mut j: usize = 0;
    while j < stats.totals.endpoints.len()
        invariant
            0 <= j <= stats.totals.endpoints@.len(),
            endpoints@ == stats.totals.endpoints@.take(j as int),
        decreases stats.totals.endpoints@.len() - j,
    {
        let entry = &stats.totals.endpoints[j];
        endpoints.push((entry.0.duplicate(), entry.1));
        proof {
            assert(stats.totals.endpoints@.take(j + 1) =~= stats.totals.endpoints@.take(
                j as int,
            ).push(stats.totals.endpoints@[j as int]));
        }
        j = j + 1;
    }
    proof {
        assert(codes@ =~= stats.totals.codes@);
        assert(endpoints@ =~= stats.totals.endpoints@);
    }
    StatsResponse {
        started_at: stats.started_at,
        last_second: stats.last_second,
        uptime: (now_second - stats.started_at) as u64,
        active,
        requests,
        codes,
        times,
        endpoints,
        connections,
        memory,
    }
}

//		History slices

/// How many of a buffer's newest entries survive the `from` cut-off: the
/// length of the longest prefix whose entries all start at or after
/// `from`.
pub open spec fn spec_from_prefix(b: Seq<StatsForPeriod>, from: i64) -> int
    decreases b.len(),
{
    if b.len() == 0 {
        0
    } else if b[0].started_at < from {
        0
    } else {
        1 + spec_from_prefix(b.drop_first(), from)
    }
}

/// The prefix cut by `from` keeps exactly the leading entries at or after
/// `from`, stopping at the first older one.
proof fn lemma_from_prefix(b: Seq<StatsForPeriod>, from: i64)
    ensures
        0 <= spec_from_prefix(b, from) <= b.len(),
        forall|j: int|
            0 <= j < spec_from_prefix(b, from) ==> (#[trigger] b[j]).started_at >= from,
        spec_from_prefix(b, from) < b.len() ==> b[spec_from_prefix(b, from)].started_at < from,
    decreases b.len(),
{
    if b.len() > 0 && b[0].started_at >= from {
        lemma_from_prefix(b.drop_first(), from);
        assert forall|j: int|
            0 <= j < spec_from_prefix(b, from) implies (#[trigger] b[j]).started_at >= from by {
            if j > 0 {
                assert(b.drop_first()[j - 1] == b[j]);
            }
        }
    }
}

/// How many newest entries a history slice returns: entries are taken
/// while their second is at or after `from`, and at most `limit` of
/// them.
pub open spec fn spec_cut(
    b: Seq<StatsForPeriod>,
    from: Option<i64>,
    limit: Option<usize>,
) -> int {
    let by_from = match from {
        Some(f) => spec_from_prefix(b, f),
        None => b.len() as int,
    };
    let by_limit = match limit {
        Some(l) => if l < b.len() {
            l as int
        } else {
            b.len() as int
        },
        None => b.len() as int,
    };
    if by_from < by_limit {
        by_from
    } else {
        by_limit
    }
}

/// The slice of a buffer a history query returns: its newest entries, in
/// newest-first order, stopped by whichever fires first of the `from`
/// cut-off and the `limit`.
pub open spec fn spec_sliced(
    b: Seq<StatsForPeriod>,
    from: Option<i64>,
    limit: Option<usize>,
) -> Seq<StatsForPeriod> {
    b.take(spec_cut(b, from, limit))
}

/// Processes a buffer of statistics data: returns the newest entries, in
/// newest-first order, stopping at the first entry older than `from` or
/// after `limit` entries, whichever comes first.
pub fn process_buffer(
    buffer: &VecDeque<StatsForPeriod>,
    from: Option<i64>,
    limit: Option<usize>,
) -> (r: Vec<StatsForPeriod>)
    ensures
        r@ == spec_sliced(buffer@, from, limit),
{
    let ghost b = buffer@;
    proof {
        if from is Some {
            lemma_from_prefix(b, from->0);
        }
    }
    let max_take = match limit {
        Some(l) => if l < buffer.len() {
            l
        } else {
            buffer.len()
        },
        None => buffer.len(),
    };
    let mut out: Vec<StatsForPeriod> = Vec::new();
    let mut i: usize = 0;
    let mut stop = false;
    while i < max_take && !stop
        invariant
            0 <= i <= max_take <= b.len(),
            buffer@ == b,
            max_take as int == match limit {
                Some(l) => if l < b.len() {
                    l as int
                } else {
                    b.len() as int
                },
                None => b.len() as int,
            },
            out@ == b.take(i as int),
            from is Some ==> i <= spec_from_prefix(b, from->0),
            stop ==> (from is Some && i == spec_from_prefix(b, from->0)),
        decreases max_take - i + if stop {
            0int
        } else {
            1int
        },
    {
        let entry = buffer[i];
        let older = match from {
            Some(f) => entry.started_at < f,
            None => false,
        };
        if older {
            stop = true;
            proof {
                lemma_from_prefix(b, from->0);
                let k = spec_from_prefix(b, from->0);
                if i < k {
                    assert(b[i as int].started_at >= from->0);
                }
            }
        } else {
            out.push(entry);
            proof {
                assert(b.take(i + 1) =~= b.take(i as int).push(b[i as int]));
                if from is Some {
                    lemma_from_prefix(b, from->0);
                    let k = spec_from_prefix(b, from->0);
                    if i >= k {
                        assert(b[k].started_at < from->0);
                        assert(i == k);
                    }
                }
            }
            i = i + 1;
        }
    }
    proof {
        assert(out@ =~= spec_sliced(b, from, limit));
    }
    out
}

//		get_stats_history
/// Computes the historical statistics interval data for a history query:
/// the latest completed second, and for each selected buffer (all three
/// when none is named) its newest entries, cut by the query's `from` and
/// `limit`.
pub fn get_stats_history(stats: &AppStats, params: &GetStatsHistoryParams) -> (r:
    StatsHistoryResponse)
    ensures
        r.last_second == stats.last_second,
        (params.buffer is None || params.buffer == Some(MeasurementType::Times)) ==> r.times@
            == spec_sliced(stats.buffers.responses@, params.from, params.limit),
        (params.buffer is None || params.buffer == Some(MeasurementType::Connections))
            ==> r.connections@ == spec_sliced(
            stats.buffers.connections@,
            params.from,
            params.limit,
        ),
        (params.buffer is None || params.buffer == Some(MeasurementType::Memory)) ==> r.memory@
            == spec_sliced(stats.buffers.memory@, params.from, params.limit),
        !(params.buffer is None || params.buffer == Some(MeasurementType::Times))
            ==> r.times@.len() == 0,
        !(params.buffer is None || params.buffer == Some(MeasurementType::Connections))
            ==> r.connections@.len() == 0,
        !(params.buffer is None || params.buffer == Some(MeasurementType::Memory))
            ==> r.memory@.len() == 0,
{
    let mut response = StatsHistoryResponse::default();
    response.last_second = stats.last_second;
    match params.buffer {
        Some(MeasurementType::Times) => {
            response.times = process_buffer(&stats.buffers.responses, params.from, params.limit);
        },
        Some(MeasurementType::Connections) => {
            response.connections = process_buffer(
                &stats.buffers.connections,
                params.from,
                params.limit,
            );
        },
        Some(MeasurementType::Memory) => {
            response.memory = process_buffer(&stats.buffers.memory, params.from, params.limit);
        },
        None => {
            response.times = process_buffer(&stats.buffers.responses, params.from, params.limit);
            response.connections = process_buffer(
                &stats.buffers.connections,
                params.from,
                params.limit,
            );
            response.memory = process_buffer(&stats.buffers.memory, params.from, params.limit);
        },
    }
    response
}

//		Live feed

/// An incoming frame on the live-feed stream, as the feed logic sees it.
#[derive(Debug)]
pub enum FeedIncoming {
    /// A ping from the peer, with its payload.
    Ping(Vec<u8>),
    /// A pong from the peer.
    Pong,
    /// The peer closed the stream.
    Close,
    /// A text frame, which the feed does not expect.
    Text,
    /// A binary frame, which the feed does not expect.
    Binary,
    /// The transport reported an error.
    Error,
}

/// An event the live feed reacts to.
#[derive(Debug)]
pub enum FeedEvent {
    /// The ping interval elapsed.
    PingTick,
    /// The timeout check interval elapsed.
    TimeoutTick,
    /// A frame arrived from the peer.
    Incoming(FeedIncoming),
    /// A completed second arrived from the fan-out bus.
    Data(AllStatsForPeriod),
}

/// What the live feed asks its transport to do in response to an event.
#[derive(Debug)]
pub enum FeedAction {
    /// Nothing to send.
    Ignore,
    /// Send a ping.
    SendPing,
    /// Send a pong echoing the ping's payload.
    SendPong(Vec<u8>),
    /// Send all three aggregates of a completed second.
    SendAll(AllStatsForPeriod),
    /// Send the one subscribed aggregate of a completed second.
    SendOne(StatsForPeriod),
    /// Close the stream.
    Close,
}

//		FeedState

/// The live feed's connection state: when the last ping went out and
/// when the last pong came back, in microseconds since the epoch.
pub struct FeedState {
    /// When the last ping was sent, absent until the first ping.
    pub last_ping: Option<i64>,

    /// When the last pong was received; initially the time the stream
    /// was opened.
    pub last_pong: i64,
}

impl FeedState {
    /// The state of a freshly opened stream at the given time: no ping
    /// outstanding.
    pub fn new(now_us: i64) -> (r: FeedState)
        ensures
            r.last_ping is None,
            r.last_pong == now_us,
    {
        FeedState { last_ping: None, last_pong: now_us }
    }
}

/// Whether a ping has timed out: one was sent, no pong has arrived since,
/// and more than the timeout has elapsed since it went out.
pub open spec fn spec_ping_timed_out(
    state: FeedState,
    now_us: i64,
    ping_timeout_s: u64,
) -> bool {
    match state.last_ping {
        Some(t) => state.last_pong < t && now_us - t > ping_timeout_s * 1_000_000,
        None => false,
    }
}

//		feed_step
/// Advances the live-feed state machine by one event.
///
/// A ping tick sends a ping and records when it went out; a timeout tick
/// closes the stream when the last ping has gone unanswered beyond the
/// timeout; an incoming ping is answered with a pong, an incoming pong
/// refreshes the pong time, a peer close or a transport error closes the
/// stream, and unexpected text or binary frames are ignored.  A completed
/// second from the bus is sent on, narrowed to the subscribed measurement
/// when the stream was opened with one.
pub fn feed_step(
    state: &mut FeedState,
    event: FeedEvent,
    now_us: i64,
    ping_timeout_s: u64,
    scope: Option<MeasurementType>,
) -> (action: FeedAction)
    ensures
        match event {
            FeedEvent::PingTick => {
                &&& action == FeedAction::SendPing
                &&& final(state).last_ping == Some(now_us)
                &&& final(state).last_pong == old(state).last_pong
            },
            FeedEvent::TimeoutTick => {
                &&& *final(state) == *old(state)
                &&& action == if spec_ping_timed_out(*old(state), now_us, ping_timeout_s) {
                    FeedAction::Close
                } else {
                    FeedAction::Ignore
                }
            },
            FeedEvent::Incoming(frame) => {
                &&& (frame matches FeedIncoming::Pong ==> *final(state) == (FeedState {
                    last_pong: now_us,
                    ..*old(state)
                }))
                &&& (!(frame matches FeedIncoming::Pong) ==> *final(state) == *old(state))
                &&& action == match frame {
                    FeedIncoming::Ping(payload) => FeedAction::SendPong(payload),
                    FeedIncoming::Pong => FeedAction::Ignore,
                    FeedIncoming::Close => FeedAction::Close,
                    FeedIncoming::Text => FeedAction::Ignore,
                    FeedIncoming::Binary => FeedAction::Ignore,
                    FeedIncoming::Error => FeedAction::Close,
                }
            },
            FeedEvent::Data(data) => {
                &&& *final(state) == *old(state)
                &&& action == match scope {
                    Some(MeasurementType::Times) => FeedAction::SendOne(data.times),
                    Some(MeasurementType::Connections) => FeedAction::SendOne(data.connections),
                    Some(MeasurementType::Memory) => FeedAction::SendOne(data.memory),
                    None => FeedAction::SendAll(data),
                }
            },
        },
{
    match event {
        FeedEvent::PingTick => {
            state.last_ping = Some(now_us);
            FeedAction::SendPing
        },
        FeedEvent::TimeoutTick => {
            let timed_out = match state.last_ping {
                Some(t) => state.last_pong < t && (now_us as i128) - (t as i128) > (
                ping_timeout_s as i128) * 1_000_000,
                None => false,
            };
            if timed_out {
                FeedAction::Close
            } else {
                FeedAction::Ignore
            }
        },
        FeedEvent::Incoming(frame) => match frame {
            FeedIncoming::Ping(payload) => FeedAction::SendPong(payload),
            FeedIncoming::Pong => {
                state.last_pong = now_us;
                FeedAction::Ignore
            },
            FeedIncoming::Close => FeedAction::Close,
            FeedIncoming::Text => FeedAction::Ignore,
            FeedIncoming::Binary => FeedAction::Ignore,
            FeedIncoming::Error => FeedAction::Close,
        },
        FeedEvent::Data(data) => match scope {
            Some(MeasurementType::Times) => FeedAction::SendOne(data.times),
            Some(MeasurementType::Connections) => FeedAction::SendOne(data.connections),
            Some(MeasurementType::Memory) => FeedAction::SendOne(data.memory),
            None => FeedAction::SendAll(data),
        },
    }
}

} // verus!
