//! The statistics worker's value types and per-second aggregation.

use vstd::prelude::*;
use vstd::string::StringExecFns;
use super::config::Config;
use super::state::{AppStats, spec_chronological, spec_entries_wf, spec_recorded};
use std::collections::VecDeque;
use vstd::arithmetic::mul::{lemma_mul_basics_2, lemma_mul_inequality, lemma_mul_is_commutative, lemma_mul_is_distributive_add,
    lemma_mul_upper_bound};

verus! {

//		Endpoint

/// A formalised definition of an endpoint for identification.
pub struct Endpoint {
    /// The path of the endpoint, minus any query parameters.  As this is
    /// just the path, it does not contain scheme or authority (host), and
    /// hence is not a full URI.
    pub path: String,

    /// The HTTP verb of the endpoint.
    pub method: String,
}

impl Endpoint {
    /// The identity of the endpoint: its method and path.  Two endpoints
    /// are the same exactly when their keys are equal; no normalisation of
    /// the path is performed.
    pub open spec fn key(self) -> (Seq<char>, Seq<char>) {
        (self.method@, self.path@)
    }

    /// Whether both values identify the same endpoint.
    pub fn matches(&self, other: &Endpoint) -> (r: bool)
        ensures
            r == (self.key() == other.key()),
    {
        self.method == other.method && self.path == other.path
    }

    /// An identical copy of the endpoint.
    pub fn duplicate(&self) -> (r: Endpoint)
        ensures
            r == *self,
    {
        Endpoint { path: self.path.clone(), method: self.method.clone() }
    }

    /// The canonical `"<METHOD> <PATH>"` rendering used in reports.
    pub fn label(&self) -> (r: String)
        ensures
            r@ == self.method@ + " "@ + self.path@,
    {
        let mut s = self.method.clone();
        s.append(" ");
        s.append(self.path.as_str());
        s
    }
}

//		StatsForPeriod

/// Maximum, minimum, count and exact running total of the values observed
/// over a period of time.  The arithmetic mean of the period is
/// `total / count`; keeping the exact total rather than a rounded mean makes
/// the count-weighted merge of two aggregates exact.
#[derive(Clone, Copy, Debug, PartialEq, Eq, Structural)]
pub struct StatsForPeriod {
    /// The date and time the period started, in whole seconds since the
    /// epoch.
    pub started_at: i64,

    /// The exact sum of all values folded in.  The average value of the
    /// period is `total / count`.
    pub total: u128,

    /// Maximum value.
    pub maximum: u64,

    /// Minimum value.
    pub minimum: u64,

    /// The total number of values.
    pub count: u64,
}

impl StatsForPeriod {
    /// The aggregate with no values folded in, starting at the epoch.
    pub open spec fn spec_empty() -> StatsForPeriod {
        StatsForPeriod { started_at: 0, total: 0, maximum: 0, minimum: 0, count: 0 }
    }

    /// The aggregate holding a single value.
    pub open spec fn spec_initialized(value: u64) -> StatsForPeriod {
        StatsForPeriod {
            started_at: 0,
            total: value as u128,
            maximum: value,
            minimum: value,
            count: 1,
        }
    }

    /// Well-formedness: an empty aggregate carries only zeroes, and a
    /// non-empty one keeps its total between `minimum * count` and
    /// `maximum * count` — that is, the mean lies between the extremes.
    pub open spec fn wf(self) -> bool {
        if self.count == 0 {
            self.total == 0 && self.minimum == 0 && self.maximum == 0
        } else {
            &&& self.minimum <= self.maximum
            &&& self.minimum * self.count <= self.total
            &&& self.total <= self.maximum * self.count
        }
    }

    //		initialize
    /// Initialises the stats based on a single starting value.
    ///
    /// The value is applied to the total, maximum and minimum, and the count
    /// is set to 1.
    pub fn initialize(value: u64) -> (r: StatsForPeriod)
        ensures
            r == StatsForPeriod::spec_initialized(value),
            r.wf(),
    {
        StatsForPeriod {
            started_at: 0,
            total: value as u128,
            maximum: value,
            minimum: value,
            count: 1,
        }
    }

    //		update
    /// Updates the stats with new data.
    ///
    /// The maximum and minimum are widened to cover the new data, the counts
    /// are combined, and the totals are added, so that the mean of the result
    /// is the count-weighted mean of the two inputs.  The start time is not
    /// updated.  Arithmetic saturates: when the combined count exceeds the
    /// largest representable count, the count sticks at that largest value
    /// and the total is clamped so the mean stays within the extremes.
    pub fn update(&mut self, stats: &StatsForPeriod)
        requires
            old(self).wf(),
            stats.wf(),
        ensures
            *final(self) == spec_merged(*old(self), *stats),
            final(self).wf(),
    {
        proof {
            lemma_merged_wf(*self, *stats);
        }
        if (stats.minimum < self.minimum && stats.count > 0) || self.count == 0 {
            self.minimum = stats.minimum;
        }
        if stats.maximum > self.maximum {
            self.maximum = stats.maximum;
        }
        if self.count <= u64::MAX - stats.count {
            proof {
                let ghost ac = old(self).count as int;
                let ghost bc = stats.count as int;
                let ghost mx = self.maximum as int;
                lemma_mul_upper_bound(old(self).maximum as int, mx, ac, ac);
                lemma_mul_upper_bound(stats.maximum as int, mx, bc, bc);
                assert(mx * ac + mx * bc == mx * (ac + bc)) by (nonlinear_arith);
                lemma_mul_upper_bound(mx, u64::MAX as int, ac + bc, u64::MAX as int);
            }
            self.count = self.count + stats.count;
            self.total = self.total + stats.total;
        } else {
            self.count = u64::MAX;
            proof {
                lemma_mul_upper_bound(
                    self.minimum as int,
                    u64::MAX as int,
                    u64::MAX as int,
                    u64::MAX as int,
                );
                lemma_mul_upper_bound(
                    self.maximum as int,
                    u64::MAX as int,
                    u64::MAX as int,
                    u64::MAX as int,
                );
            }
            let lo: u128 = (self.minimum as u128) * (u64::MAX as u128);
            let hi: u128 = (self.maximum as u128) * (u64::MAX as u128);
            let total = match self.total.checked_add(stats.total) {
                Some(raw) => if raw < lo {
                    lo
                } else if raw > hi {
                    hi
                } else {
                    raw
                },
                None => hi,
            };
            self.total = total;
        }
    }
}

impl Default for StatsForPeriod {
    /// The empty aggregate: no values, zero extremes, epoch start time.
    fn default() -> (r: StatsForPeriod)
        ensures
            r == StatsForPeriod::spec_empty(),
            r.wf(),
    {
        StatsForPeriod { started_at: 0, total: 0, maximum: 0, minimum: 0, count: 0 }
    }
}

//		AllStatsForPeriod

/// The per-second aggregates for all areas being measured, as published
/// once per completed non-idle second.
#[derive(Clone, Copy, Debug, PartialEq, Eq, Structural)]
pub struct AllStatsForPeriod {
    /// The response times in microseconds for the most recent second.
    pub times: StatsForPeriod,

    /// The open connections for the most recent second.
    pub connections: StatsForPeriod,

    /// The memory usage in bytes for the most recent second.
    pub memory: StatsForPeriod,
}

impl Default for AllStatsForPeriod {
    /// Empty aggregates for all three areas.
    fn default() -> (r: AllStatsForPeriod)
        ensures
            r.times == StatsForPeriod::spec_empty(),
            r.connections == StatsForPeriod::spec_empty(),
            r.memory == StatsForPeriod::spec_empty(),
    {
        AllStatsForPeriod {
            times: StatsForPeriod::default(),
            connections: StatsForPeriod::default(),
            memory: StatsForPeriod::default(),
        }
    }
}

//		ResponseMetrics

/// Metrics for a single response, handed from the capture hook to the
/// statistics queue and consumed exactly once by the worker.
pub struct ResponseMetrics {
    /// The endpoint that was requested.
    pub endpoint: Endpoint,

    /// The second in which the request started, in whole seconds since
    /// the epoch.
    pub started_at: i64,

    /// The time the response took to be generated, in microseconds.
    pub time_taken: u64,

    /// The status code of the response.
    pub status_code: u16,

    /// The number of open connections at the time the response was
    /// generated.
    pub connections: u64,

    /// The amount of memory allocated at the time the response was
    /// generated, in bytes.
    pub memory: u64,
}

impl ResponseMetrics {
    /// Well-formedness: the status code is a real HTTP status code.
    pub open spec fn wf(self) -> bool {
        100 <= self.status_code < 1000
    }
}

/// The result of folding `b` into `a`: extremes widened, counts combined
/// with saturation, totals added exactly (clamped between the extremes only
/// if the count saturated), `a`'s start time preserved.
pub open spec fn spec_merged(a: StatsForPeriod, b: StatsForPeriod) -> StatsForPeriod {
    let minimum = if (b.minimum < a.minimum && b.count > 0) || a.count == 0 {
        b.minimum
    } else {
        a.minimum
    };
    let maximum = if b.maximum > a.maximum {
        b.maximum
    } else {
        a.maximum
    };
    if a.count + b.count <= u64::MAX {
        StatsForPeriod {
            started_at: a.started_at,
            total: (a.total + b.total) as u128,
            maximum,
            minimum,
            count: (a.count + b.count) as u64,
        }
    } else {
        StatsForPeriod {
            started_at: a.started_at,
            total: spec_clamped(a.total + b.total, minimum, maximum),
            maximum,
            minimum,
            count: u64::MAX,
        }
    }
}

/// A raw total clamped so that a saturated count of `u64::MAX` keeps the
/// mean between `minimum` and `maximum`.
pub open spec fn spec_clamped(raw: int, minimum: u64, maximum: u64) -> u128 {
    let lo = minimum * u64::MAX;
    let hi = maximum * u64::MAX;
    if raw < lo {
        lo as u128
    } else if raw > hi {
        hi as u128
    } else {
        raw as u128
    }
}

/// Folding one well-formed aggregate into another yields a well-formed
/// aggregate: the mean of the merge stays between the merged extremes.
pub proof fn lemma_merged_wf(a: StatsForPeriod, b: StatsForPeriod)
    requires
        a.wf(),
        b.wf(),
    ensures
        spec_merged(a, b).wf(),
{
    let m = spec_merged(a, b);
    let ac = a.count as int;
    let bc = b.count as int;
    if a.count + b.count <= u64::MAX {
        if m.count > 0 {
            if a.count > 0 {
                lemma_mul_inequality(m.minimum as int, a.minimum as int, ac);
                lemma_mul_inequality(a.maximum as int, m.maximum as int, ac);
            } else {
                lemma_mul_basics_2(m.minimum as int);
                lemma_mul_basics_2(m.maximum as int);
            }
            if b.count > 0 {
                lemma_mul_inequality(m.minimum as int, b.minimum as int, bc);
                lemma_mul_inequality(b.maximum as int, m.maximum as int, bc);
            } else {
                lemma_mul_basics_2(m.minimum as int);
                lemma_mul_basics_2(m.maximum as int);
            }
            lemma_mul_is_distributive_add(m.minimum as int, ac, bc);
            lemma_mul_is_distributive_add(m.maximum as int, ac, bc);
            lemma_mul_upper_bound(m.maximum as int, u64::MAX as int, ac + bc, u64::MAX as int);
        }
    } else {
        let lo = m.minimum * u64::MAX;
        let hi = m.maximum * u64::MAX;
        assert(m.minimum <= m.maximum);
        lemma_mul_inequality(m.minimum as int, m.maximum as int, u64::MAX as int);
        lemma_mul_inequality(m.maximum as int, u64::MAX as int, u64::MAX as int);
        assert(m.total == spec_clamped(a.total + b.total, m.minimum, m.maximum));
        assert(lo <= m.total <= hi);
        assert(m.minimum * m.count == lo && m.maximum * m.count == hi);
    }
}

/// In a well-formed, non-empty aggregate the mean lies between the
/// extremes: `minimum <= total / count <= maximum`, stated without the
/// division as `minimum * count <= total <= maximum * count`.
pub proof fn lemma_mean_within_extremes(a: StatsForPeriod)
    requires
        a.wf(),
        a.count > 0,
    ensures
        a.minimum * a.count <= a.total,
        a.total <= a.maximum * a.count,
        a.minimum <= a.maximum,
{
}

/// The empty aggregate is the identity of the merge: folding it into `x`
/// changes nothing, and folding `x` into it yields `x` except that the
/// start time of the left-hand side is kept.
pub proof fn lemma_merged_identity(x: StatsForPeriod)
    requires
        x.wf(),
    ensures
        spec_merged(x, StatsForPeriod::spec_empty()) == x,
        spec_merged(StatsForPeriod::spec_empty(), x) == (StatsForPeriod {
            started_at: StatsForPeriod::spec_empty().started_at,
            ..x
        }),
{
}

/// The merge is associative while the combined count does not saturate.
pub proof fn lemma_merged_assoc(a: StatsForPeriod, b: StatsForPeriod, c: StatsForPeriod)
    requires
        a.wf(),
        b.wf(),
        c.wf(),
        a.count + b.count + c.count <= u64::MAX,
    ensures
        spec_merged(a, spec_merged(b, c)) == spec_merged(spec_merged(a, b), c),
{
    lemma_merged_wf(a, b);
    lemma_merged_wf(b, c);
    lemma_total_bounded(a);
    lemma_total_bounded(b);
    lemma_total_bounded(c);
    lemma_mul_is_distributive_add(u64::MAX as int, a.count as int, b.count as int);
    lemma_mul_is_distributive_add(
        u64::MAX as int,
        a.count + b.count,
        c.count as int,
    );
    lemma_mul_upper_bound(
        u64::MAX as int,
        u64::MAX as int,
        a.count + b.count + c.count,
        u64::MAX as int,
    );
}

/// A well-formed aggregate's total is at most `u64::MAX * count`.
pub proof fn lemma_total_bounded(a: StatsForPeriod)
    requires
        a.wf(),
    ensures
        a.total <= u64::MAX * a.count,
{
    if a.count == 0 {
        lemma_mul_basics_2(u64::MAX as int);
    } else {
        lemma_mul_inequality(a.maximum as int, u64::MAX as int, a.count as int);
    }
}

//		Folds over sequences

/// The aggregate obtained by folding a sequence of single values in
/// arrival order, starting from the empty aggregate.
pub open spec fn spec_folded_values(values: Seq<u64>) -> StatsForPeriod
    decreases values.len(),
{
    if values.len() == 0 {
        StatsForPeriod::spec_empty()
    } else {
        spec_merged(
            spec_folded_values(values.drop_last()),
            StatsForPeriod::spec_initialized(values.last()),
        )
    }
}

/// The aggregate obtained by folding already-built aggregates in order,
/// starting from the empty aggregate.
pub open spec fn spec_folded_entries(entries: Seq<StatsForPeriod>) -> StatsForPeriod
    decreases entries.len(),
{
    if entries.len() == 0 {
        StatsForPeriod::spec_empty()
    } else {
        spec_merged(spec_folded_entries(entries.drop_last()), entries.last())
    }
}

/// The sum of a sequence of values.
pub open spec fn spec_sum(values: Seq<u64>) -> int
    decreases values.len(),
{
    if values.len() == 0 {
        0
    } else {
        spec_sum(values.drop_last()) + values.last()
    }
}

/// The largest of a sequence of values, zero for the empty sequence.
pub open spec fn spec_max(values: Seq<u64>) -> u64
    decreases values.len(),
{
    if values.len() == 0 {
        0
    } else if values.last() > spec_max(values.drop_last()) {
        values.last()
    } else {
        spec_max(values.drop_last())
    }
}

/// The smallest of a sequence of values, zero for the empty sequence.
pub open spec fn spec_min(values: Seq<u64>) -> u64
    decreases values.len(),
{
    if values.len() == 0 {
        0
    } else if values.len() == 1 {
        values.last()
    } else if values.last() < spec_min(values.drop_last()) {
        values.last()
    } else {
        spec_min(values.drop_last())
    }
}

/// Folding `n` single values in arrival order yields the count `n`, the
/// exact sum as the total (hence the arithmetic mean as the average), and
/// the true extremes of the values.
pub proof fn lemma_folded_values(values: Seq<u64>)
    requires
        values.len() <= u64::MAX,
    ensures
        spec_folded_values(values).wf(),
        spec_folded_values(values).count == values.len(),
        spec_folded_values(values).total == spec_sum(values),
        spec_folded_values(values).maximum == spec_max(values),
        spec_folded_values(values).minimum == spec_min(values),
        spec_folded_values(values).started_at == 0,
    decreases values.len(),
{
    if values.len() > 0 {
        let prev = spec_folded_values(values.drop_last());
        lemma_folded_values(values.drop_last());
        lemma_merged_wf(prev, StatsForPeriod::spec_initialized(values.last()));
        lemma_total_bounded(prev);
        lemma_mul_inequality(prev.count as int, u64::MAX as int, u64::MAX as int);
        lemma_mul_is_commutative(prev.count as int, u64::MAX as int);
        lemma_mul_is_distributive_add(u64::MAX as int, prev.count as int, 1);
    }
}

/// Merging the folds of two sequences of values equals folding their
/// concatenation, as long as the combined count does not saturate.
pub proof fn lemma_merged_folds(xs: Seq<u64>, ys: Seq<u64>)
    requires
        xs.len() + ys.len() <= u64::MAX,
    ensures
        spec_merged(spec_folded_values(xs), spec_folded_values(ys)) == spec_folded_values(
            xs + ys,
        ),
    decreases ys.len(),
{
    lemma_folded_values(xs);
    lemma_folded_values(ys);
    if ys.len() == 0 {
        assert(xs + ys =~= xs);
        lemma_merged_identity(spec_folded_values(xs));
    } else {
        let ys0 = ys.drop_last();
        let v = ys.last();
        lemma_folded_values(ys0);
        lemma_merged_folds(xs, ys0);
        lemma_merged_assoc(
            spec_folded_values(xs),
            spec_folded_values(ys0),
            StatsForPeriod::spec_initialized(v),
        );
        assert((xs + ys0).push(v) =~= xs + ys);
        assert((xs + ys).drop_last() =~= xs + ys0);
    }
}

/// The concatenation of a sequence of windows of values, in order.
pub open spec fn spec_concat_windows(windows: Seq<Seq<u64>>) -> Seq<u64>
    decreases windows.len(),
{
    if windows.len() == 0 {
        Seq::empty()
    } else {
        spec_concat_windows(windows.drop_last()) + windows.last()
    }
}

/// The combined length of a sequence of windows of values.
pub open spec fn spec_windows_len(windows: Seq<Seq<u64>>) -> int
    decreases windows.len(),
{
    if windows.len() == 0 {
        0
    } else {
        spec_windows_len(windows.drop_last()) + windows.last().len()
    }
}

/// Folding per-window aggregates with the merge equals folding all of the
/// windows' values directly, in the same order: the buffer-window fold
/// over per-second aggregates reports exactly the statistics of the
/// underlying samples.
pub proof fn lemma_folded_windows(windows: Seq<Seq<u64>>)
    requires
        spec_windows_len(windows) <= u64::MAX,
    ensures
        spec_folded_entries(windows.map_values(|w: Seq<u64>| spec_folded_values(w)))
            == spec_folded_values(spec_concat_windows(windows)),
        spec_concat_windows(windows).len() == spec_windows_len(windows),
    decreases windows.len(),
{
    let mapped = windows.map_values(|w: Seq<u64>| spec_folded_values(w));
    if windows.len() == 0 {
        assert(mapped.len() == 0);
    } else {
        let front = windows.drop_last();
        lemma_windows_len_nonnegative(front);
        lemma_folded_windows(front);
        lemma_merged_folds(spec_concat_windows(front), windows.last());
        assert(mapped.drop_last() =~= front.map_values(|w: Seq<u64>| spec_folded_values(w)));
        assert(mapped.last() == spec_folded_values(windows.last()));
    }
}

/// The combined length of a sequence of windows is never negative.
pub proof fn lemma_windows_len_nonnegative(windows: Seq<Seq<u64>>)
    ensures
        spec_windows_len(windows) >= 0,
    decreases windows.len(),
{
    if windows.len() > 0 {
        lemma_windows_len_nonnegative(windows.drop_last());
    }
}

//		Ring-buffer advance

/// The ring entry pushed for the `j`-th second of an advance that starts
/// at `current_second`: the accumulated aggregate for the first second,
/// an empty idle-gap entry for each later one, each stamped with its own
/// second.
pub open spec fn spec_entry(acc: StatsForPeriod, current_second: i64, j: int) -> StatsForPeriod {
    if j == 0 {
        StatsForPeriod { started_at: current_second, ..acc }
    } else {
        StatsForPeriod { started_at: (current_second + j) as i64, ..StatsForPeriod::spec_empty() }
    }
}

/// The ring buffer after pushing `elapsed` advance entries to the front
/// of `buf`, newest first, dropping from the back once the capacity `cap`
/// is reached.
pub open spec fn spec_buffer_after(
    buf: Seq<StatsForPeriod>,
    acc: StatsForPeriod,
    current_second: i64,
    elapsed: int,
    cap: int,
) -> Seq<StatsForPeriod> {
    let pushed = Seq::new(
        elapsed as nat,
        |i: int| spec_entry(acc, current_second, elapsed - 1 - i),
    );
    let len = if cap < buf.len() + elapsed {
        cap
    } else {
        buf.len() + elapsed
    };
    (pushed + buf).take(len)
}

//		update_buffer
/// Updates one ring buffer for an advance of `elapsed` seconds.
///
/// The first pushed entry carries the accumulated values for
/// `current_second`; the remaining `elapsed - 1` entries are idle-gap
/// entries with no samples.  Entries are pushed newest-first, the oldest
/// entry is dropped whenever the buffer is at capacity, and the
/// accumulator is reset to the empty aggregate.  Returns the first
/// (genuine) entry.
pub fn update_buffer(
    buffer: &mut VecDeque<StatsForPeriod>,
    buffer_size: usize,
    stats: &mut StatsForPeriod,
    current_second: i64,
    elapsed: u64,
) -> (first: StatsForPeriod)
    requires
        1 <= buffer_size,
        old(buffer)@.len() <= buffer_size,
        1 <= elapsed,
        0 <= current_second,
        current_second + elapsed <= i64::MAX,
        old(stats).wf(),
    ensures
        final(buffer)@ == spec_buffer_after(
            old(buffer)@,
            *old(stats),
            current_second,
            elapsed as int,
            buffer_size as int,
        ),
        final(buffer)@.len() <= buffer_size,
        *final(stats) == StatsForPeriod::spec_empty(),
        first == spec_entry(*old(stats), current_second, 0),
{
    let ghost orig = old(buffer)@;
    let ghost acc0 = *old(stats);
    let first = StatsForPeriod { started_at: current_second, ..*stats };
    let mut i: u64 = 0;
    proof {
        assert(spec_buffer_after(orig, acc0, current_second, 0, buffer_size as int) =~= orig);
    }
    while i < elapsed
        invariant
            0 <= i <= elapsed,
            1 <= buffer_size,
            orig.len() <= buffer_size,
            0 <= current_second,
            current_second + elapsed <= i64::MAX,
            buffer@ == spec_buffer_after(
                orig,
                acc0,
                current_second,
                i as int,
                buffer_size as int,
            ),
            buffer@.len() <= buffer_size,
            i == 0 ==> *stats == acc0,
            i > 0 ==> *stats == StatsForPeriod::spec_empty(),
        decreases elapsed - i,
    {
        let ghost pre = buffer@;
        if buffer.len() == buffer_size {
            let _ = buffer.pop_back();
        }
        stats.started_at = current_second + (i as i64);
        buffer.push_front(*stats);
        *stats = StatsForPeriod::default();
        proof {
            assert(buffer@ =~= spec_buffer_after(
                orig,
                acc0,
                current_second,
                i + 1,
                buffer_size as int,
            ));
        }
        i = i + 1;
    }
    first
}

//		Accumulators

/// The aggregator's working state: the wall-clock second now being
/// accumulated and the running aggregates of the samples seen within it.
pub struct Accumulators {
    /// The current second: the one whose samples are being accumulated
    /// and which has not yet been committed to the buffers.
    pub current_second: i64,

    /// The response-time aggregate of the current second.
    pub timing: StatsForPeriod,

    /// The open-connections aggregate of the current second.
    pub connections: StatsForPeriod,

    /// The memory-usage aggregate of the current second.
    pub memory: StatsForPeriod,
}

impl Accumulators {
    /// Well-formedness: the three aggregates are well-formed and move in
    /// lockstep (every sample is folded into all three), and the current
    /// second lies after the epoch.
    pub open spec fn wf(self) -> bool {
        &&& self.timing.wf()
        &&& self.connections.wf()
        &&& self.memory.wf()
        &&& self.timing.count == self.connections.count
        &&& self.timing.count == self.memory.count
        &&& 0 < self.current_second
    }

    /// Fresh accumulators for the given current second, with nothing
    /// folded in yet.
    pub fn new(current_second: i64) -> (r: Accumulators)
        requires
            0 < current_second,
        ensures
            r.wf(),
            r.current_second == current_second,
            r.timing == StatsForPeriod::spec_empty(),
            r.connections == StatsForPeriod::spec_empty(),
            r.memory == StatsForPeriod::spec_empty(),
    {
        Accumulators {
            current_second,
            timing: StatsForPeriod::default(),
            connections: StatsForPeriod::default(),
            memory: StatsForPeriod::default(),
        }
    }
}

/// The accumulators after folding in an optional sample: each observation
/// goes into its own aggregate, the current second is untouched.
pub open spec fn spec_acc_after_sample(
    acc: Accumulators,
    metrics: Option<ResponseMetrics>,
) -> Accumulators {
    match metrics {
        Some(m) => Accumulators {
            timing: spec_merged(acc.timing, StatsForPeriod::spec_initialized(m.time_taken)),
            connections: spec_merged(
                acc.connections,
                StatsForPeriod::spec_initialized(m.connections),
            ),
            memory: spec_merged(acc.memory, StatsForPeriod::spec_initialized(m.memory)),
            ..acc
        },
        None => acc,
    }
}

/// The second a processing step refers to: the sample's second when a
/// sample is present, the current wall-clock second otherwise.
pub open spec fn spec_step_second(metrics: Option<ResponseMetrics>, now_second: i64) -> i64 {
    match metrics {
        Some(m) => m.started_at,
        None => now_second,
    }
}

/// Everything the worker keeps between steps, mutually consistent: a
/// well-formed configuration, well-formed accumulators and totals, a
/// completed second strictly before the current one, and ring buffers
/// within capacity whose well-formed entries run newest-first one second
/// apart, ending just before the current second.
pub open spec fn spec_worker_inv(stats: AppStats, acc: Accumulators, config: Config) -> bool {
    &&& config.wf()
    &&& acc.wf()
    &&& stats.totals.wf()
    &&& 0 <= stats.last_second < acc.current_second
    &&& stats.buffers.responses@.len() <= config.timing_buffer_size
    &&& stats.buffers.connections@.len() <= config.connection_buffer_size
    &&& stats.buffers.memory@.len() <= config.memory_buffer_size
    &&& spec_entries_wf(stats.buffers.responses@)
    &&& spec_entries_wf(stats.buffers.connections@)
    &&& spec_entries_wf(stats.buffers.memory@)
    &&& spec_chronological(stats.buffers.responses@, acc.current_second)
    &&& spec_chronological(stats.buffers.connections@, acc.current_second)
    &&& spec_chronological(stats.buffers.memory@, acc.current_second)
}

//		stats_processor
/// Processes a single response metrics sample, or a bare tick when no
/// sample is given.
///
/// A sample is folded into the current second's accumulators and the
/// all-time totals.  When the step's second has moved past the current
/// second, the accumulated second is committed: each ring buffer gains
/// one genuine entry for the current second plus one idle-gap entry per
/// skipped second, the latest completed second is recorded, and the
/// genuine entry is returned for broadcast — unless the advance was
/// triggered by a bare tick with nothing accumulated, in which case there
/// is no message.  A sample whose second lies before the current second
/// (a clock regression) is still folded into the current accumulators and
/// never rewrites an already-committed entry.
pub fn stats_processor(
    config: &Config,
    metrics: Option<ResponseMetrics>,
    now_second: i64,
    acc: &mut Accumulators,
    stats: &mut AppStats,
) -> (message: Option<AllStatsForPeriod>)
    requires
        spec_worker_inv(*old(stats), *old(acc), *config),
        metrics matches Some(m) ==> m.wf(),
        0 <= now_second,
    ensures
        spec_worker_inv(*final(stats), *final(acc), *config),
        final(stats).started_at == old(stats).started_at,
        final(stats).last_second >= old(stats).last_second,
        match metrics {
            Some(m) => spec_recorded(old(stats).totals, final(stats).totals, m),
            None => final(stats).totals == old(stats).totals,
        },
        ({
            let ns = spec_step_second(metrics, now_second);
            let folded = spec_acc_after_sample(*old(acc), metrics);
            let cur = old(acc).current_second;
            if ns <= cur {
                &&& *final(acc) == folded
                &&& final(stats).buffers.responses@ == old(stats).buffers.responses@
                &&& final(stats).buffers.connections@ == old(stats).buffers.connections@
                &&& final(stats).buffers.memory@ == old(stats).buffers.memory@
                &&& final(stats).last_second == old(stats).last_second
                &&& message is None
            } else {
                &&& final(stats).buffers.responses@ == spec_buffer_after(
                    old(stats).buffers.responses@,
                    folded.timing,
                    cur,
                    ns - cur,
                    config.timing_buffer_size as int,
                )
                &&& final(stats).buffers.connections@ == spec_buffer_after(
                    old(stats).buffers.connections@,
                    folded.connections,
                    cur,
                    ns - cur,
                    config.connection_buffer_size as int,
                )
                &&& final(stats).buffers.memory@ == spec_buffer_after(
                    old(stats).buffers.memory@,
                    folded.memory,
                    cur,
                    ns - cur,
                    config.memory_buffer_size as int,
                )
                &&& final(stats).last_second == cur
                &&& final(acc).current_second == ns
                &&& final(acc).timing == StatsForPeriod::spec_empty()
                &&& final(acc).connections == StatsForPeriod::spec_empty()
                &&& final(acc).memory == StatsForPeriod::spec_empty()
                &&& message == if folded.timing.count > 0 {
                    Some(
                        AllStatsForPeriod {
                            times: spec_entry(folded.timing, cur, 0),
                            connections: spec_entry(folded.connections, cur, 0),
                            memory: spec_entry(folded.memory, cur, 0),
                        },
                    )
                } else {
                    Option::<AllStatsForPeriod>::None
                }
            }
        }),
{
    let ghost folded = spec_acc_after_sample(*old(acc), metrics);
    let new_second: i64;
    if let Some(m) = metrics {
        let new_timing = StatsForPeriod::initialize(m.time_taken);
        let new_conn = StatsForPeriod::initialize(m.connections);
        let new_memory = StatsForPeriod::initialize(m.memory);
        acc.timing.update(&new_timing);
        acc.connections.update(&new_conn);
        acc.memory.update(&new_memory);
        stats.totals.record(&m);
        new_second = m.started_at;
    } else {
        new_second = now_second;
    }
    if new_second > acc.current_second {
        let elapsed = (new_second - acc.current_second) as u64;
        let first_timing = update_buffer(
            &mut stats.buffers.responses,
            config.timing_buffer_size,
            &mut acc.timing,
            acc.current_second,
            elapsed,
        );
        let first_conn = update_buffer(
            &mut stats.buffers.connections,
            config.connection_buffer_size,
            &mut acc.connections,
            acc.current_second,
            elapsed,
        );
        let first_memory = update_buffer(
            &mut stats.buffers.memory,
            config.memory_buffer_size,
            &mut acc.memory,
            acc.current_second,
            elapsed,
        );
        stats.last_second = acc.current_second;
        let message = if first_timing.count > 0 {
            Some(
                AllStatsForPeriod {
                    times: first_timing,
                    connections: first_conn,
                    memory: first_memory,
                },
            )
        } else {
            None
        };
        acc.current_second = new_second;
        proof {
            lemma_buffer_after_chronological(
                old(stats).buffers.responses@,
                folded.timing,
                old(acc).current_second,
                new_second as int,
                config.timing_buffer_size as int,
            );
            lemma_buffer_after_chronological(
                old(stats).buffers.connections@,
                folded.connections,
                old(acc).current_second,
                new_second as int,
                config.connection_buffer_size as int,
            );
            lemma_buffer_after_chronological(
                old(stats).buffers.memory@,
                folded.memory,
                old(acc).current_second,
                new_second as int,
                config.memory_buffer_size as int,
            );
        }
        message
    } else {
        None
    }
}

/// After an advance the buffer is still within capacity, its entries are
/// well-formed, and they run newest-first one second apart ending just
/// before the new current second.
proof fn lemma_buffer_after_chronological(
    buf: Seq<StatsForPeriod>,
    acc: StatsForPeriod,
    current_second: i64,
    new_second: int,
    cap: int,
)
    requires
        1 <= cap,
        buf.len() <= cap,
        0 <= current_second,
        current_second < new_second <= i64::MAX,
        spec_chronological(buf, current_second),
        spec_entries_wf(buf),
        acc.wf(),
    ensures
        spec_buffer_after(buf, acc, current_second, new_second - current_second, cap).len()
            <= cap,
        spec_chronological(
            spec_buffer_after(buf, acc, current_second, new_second - current_second, cap),
            new_second as i64,
        ),
        spec_entries_wf(
            spec_buffer_after(buf, acc, current_second, new_second - current_second, cap),
        ),
{
    let elapsed = new_second - current_second;
    let after = spec_buffer_after(buf, acc, current_second, elapsed, cap);
    assert forall|i: int| 0 <= i < after.len() implies (#[trigger] after[i]).started_at
        == new_second - 1 - i && after[i].wf() by {
        if i < elapsed {
            assert(after[i] == spec_entry(acc, current_second, elapsed - 1 - i));
        } else {
            assert(after[i] == buf[i - elapsed]);
        }
    }
}

} // verus!
