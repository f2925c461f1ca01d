//! Configuration for the statistics functionality.

use vstd::prelude::*;

verus! {

//		Config

/// The configuration options for gathering and processing statistics.
pub struct Config {
    /// Whether to enable statistics gathering and processing.  If
    /// disabled, the worker is not started and the capture hook does
    /// nothing beyond attaching its context.
    pub enabled: bool,

    /// The size of the buffer to use for storing response times, in
    /// seconds.
    pub timing_buffer_size: usize,

    /// The size of the buffer to use for storing connection data, in
    /// seconds.
    pub connection_buffer_size: usize,

    /// The size of the buffer to use for storing memory usage data, in
    /// seconds.
    pub memory_buffer_size: usize,

    /// The interval at which to send ping messages to WebSocket clients,
    /// in seconds.
    pub ws_ping_interval: usize,

    /// The timeout for WebSocket ping messages, in seconds.  If a pong is
    /// not received in reply within this time, the connection is closed.
    pub ws_ping_timeout: usize,

    /// The time periods to report statistics for, as pairs of a name and
    /// a window length in seconds, held in ascending order of length.  An
    /// implicit `all` period covering the whole uptime is always appended
    /// to reports.
    pub periods: Vec<(String, u64)>,
}

impl Config {
    /// Well-formedness: each ring buffer holds at least one entry, and the
    /// reporting periods are in ascending order of window length.
    pub open spec fn wf(self) -> bool {
        &&& self.timing_buffer_size >= 1
        &&& self.connection_buffer_size >= 1
        &&& self.memory_buffer_size >= 1
        &&& forall|i: int, j: int|
            0 <= i < j < self.periods@.len() ==> (#[trigger] self.periods@[i]).1
                <= (#[trigger] self.periods@[j]).1
    }
}

//		sort_periods
/// Orders reporting periods ascending by window length, as the overview
/// yields them.  The result holds exactly the given entries; the order of
/// periods with equal lengths is unspecified.
pub fn sort_periods(periods: Vec<(String, u64)>) -> (r: Vec<(String, u64)>)
    ensures
        r@.to_multiset() == periods@.to_multiset(),
        r@.len() == periods@.len(),
        forall|i: int, j: int|
            0 <= i < j < r@.len() ==> (#[trigger] r@[i]).1 <= (#[trigger] r@[j]).1,
{
    broadcast use vstd::seq_lib::group_to_multiset_ensures;

    let ghost orig = periods@;
    let mut rest = periods;
    let mut out: Vec<(String, u64)> = Vec::new();
    proof {
        assert(out@.to_multiset().add(rest@.to_multiset()) =~= orig.to_multiset());
    }
    while rest.len() > 0
        invariant
            out@.to_multiset().add(rest@.to_multiset()) =~= orig.to_multiset(),
            out@.len() + rest@.len() == orig.len(),
            forall|i: int, j: int|
                0 <= i < j < out@.len() ==> (#[trigger] out@[i]).1 <= (#[trigger] out@[j]).1,
            forall|i: int, j: int|
                0 <= i < out@.len() && 0 <= j < rest@.len() ==> (#[trigger] out@[i]).1
                    <= (#[trigger] rest@[j]).1,
        decreases rest@.len(),
    {
        let mut m: usize = 0;
        let mut j: usize = 1;
        while j < rest.len()
            invariant
                0 <= m < j <= rest@.len(),
                rest@.len() > 0,
                forall|k: int| 0 <= k < j ==> (#[trigger] rest@[k]).1 >= rest@[m as int].1,
            decreases rest@.len() - j,
        {
            if rest[j].1 < rest[m].1 {
                m = j;
            }
            j = j + 1;
        }
        let ghost rest_before = rest@;
        let ghost out_before = out@;
        let item = rest.remove(m);
        out.push(item);
        proof {
            broadcast use vstd::seq_lib::group_to_multiset_ensures;

            vstd::seq_lib::to_multiset_remove(rest_before, m as int);
            vstd::seq_lib::to_multiset_build(out_before, item);
            assert(rest_before[m as int] == item);
            assert(rest_before.contains(item));
            assert(rest@ == rest_before.remove(m as int));
            assert(rest@.to_multiset() =~= rest_before.to_multiset().remove(item));
            assert(out@ == out_before.push(item));
            assert(out@.to_multiset() =~= out_before.to_multiset().insert(item));
            assert(rest_before.to_multiset().count(item) > 0);
            assert(out@.to_multiset().add(rest@.to_multiset()) =~= orig.to_multiset());
        }
    }
    out
}

impl Default for Config {
    /// Statistics enabled, one day of one-second entries per buffer, a
    /// ping every minute with a ten-second timeout, and no named periods.
    fn default() -> (r: Config)
        ensures
            r.enabled == true,
            r.timing_buffer_size == 86400,
            r.connection_buffer_size == 86400,
            r.memory_buffer_size == 86400,
            r.ws_ping_interval == 60,
            r.ws_ping_timeout == 10,
            r.periods@.len() == 0,
            r.wf(),
    {
        Config {
            enabled: true,
            timing_buffer_size: 86400,
            connection_buffer_size: 86400,
            memory_buffer_size: 86400,
            ws_ping_interval: 60,
            ws_ping_timeout: 10,
            periods: Vec::new(),
        }
    }
}

} // verus!
