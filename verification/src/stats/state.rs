//! State for the statistics functionality.

use vstd::prelude::*;
use super::worker::{Endpoint, ResponseMetrics, StatsForPeriod, spec_merged};
use std::collections::VecDeque;

verus! {

//		Status-code counters

/// The status-code counters are kept strictly sorted by code, so each code
/// appears at most once and reports come out in ascending code order.
pub open spec fn spec_codes_sorted(codes: Seq<(u16, u64)>) -> bool {
    forall|i: int, j: int|
        0 <= i < j < codes.len() ==> (#[trigger] codes[i]).0 < (#[trigger] codes[j]).0
}

/// Every counted code is a real HTTP status code.
pub open spec fn spec_codes_valid(codes: Seq<(u16, u64)>) -> bool {
    forall|i: int| 0 <= i < codes.len() ==> 100 <= (#[trigger] codes[i]).0 < 1000
}

/// Whether the counters hold an entry for `code`.
pub open spec fn spec_has_code(codes: Seq<(u16, u64)>, code: u16) -> bool {
    exists|i: int| 0 <= i < codes.len() && (#[trigger] codes[i]).0 == code
}

/// The count recorded for `code`, zero when absent.
pub open spec fn spec_code_count(codes: Seq<(u16, u64)>, code: u16) -> u64 {
    if spec_has_code(codes, code) {
        codes[choose|i: int| 0 <= i < codes.len() && (#[trigger] codes[i]).0 == code].1
    } else {
        0
    }
}

/// The sum of all recorded counts.
pub open spec fn spec_codes_total(codes: Seq<(u16, u64)>) -> int
    decreases codes.len(),
{
    if codes.len() == 0 {
        0
    } else {
        spec_codes_total(codes.drop_last()) + codes.last().1
    }
}

/// Updating one entry's count moves the sum by the difference.
proof fn lemma_codes_total_update(codes: Seq<(u16, u64)>, i: int, v: u64)
    requires
        0 <= i < codes.len(),
    ensures
        spec_codes_total(codes.update(i, (codes[i].0, v))) == spec_codes_total(codes)
            - codes[i].1 + v,
    decreases codes.len(),
{
    let updated = codes.update(i, (codes[i].0, v));
    if i == codes.len() - 1 {
        assert(updated.drop_last() =~= codes.drop_last());
    } else {
        assert(updated.drop_last() =~= codes.drop_last().update(i, (codes[i].0, v)));
        lemma_codes_total_update(codes.drop_last(), i, v);
    }
}

/// Inserting an entry adds its count to the sum.
proof fn lemma_codes_total_insert(codes: Seq<(u16, u64)>, i: int, entry: (u16, u64))
    requires
        0 <= i <= codes.len(),
    ensures
        spec_codes_total(codes.insert(i, entry)) == spec_codes_total(codes) + entry.1,
    decreases codes.len(),
{
    let inserted = codes.insert(i, entry);
    if i == codes.len() {
        assert(inserted.drop_last() =~= codes);
        assert(inserted.last() == entry);
    } else {
        assert(inserted.drop_last() =~= codes.drop_last().insert(i, entry));
        assert(inserted.last() == codes.last());
        lemma_codes_total_insert(codes.drop_last(), i, entry);
    }
}

/// Records one more response with the given status code: an existing
/// counter is bumped (saturating), a missing one is created at 1, and the
/// counters stay sorted by code.
pub fn increment_code(codes: &mut Vec<(u16, u64)>, code: u16)
    requires
        spec_codes_sorted(old(codes)@),
        spec_codes_valid(old(codes)@),
        100 <= code < 1000,
    ensures
        spec_codes_sorted(final(codes)@),
        spec_codes_valid(final(codes)@),
        forall|c: u16|
            spec_has_code(final(codes)@, c) == (spec_has_code(old(codes)@, c) || c == code),
        spec_code_count(final(codes)@, code) == if spec_code_count(old(codes)@, code)
            < u64::MAX {
            spec_code_count(old(codes)@, code) + 1
        } else {
            u64::MAX as int
        },
        forall|c: u16|
            c != code ==> spec_code_count(final(codes)@, c) == spec_code_count(old(codes)@, c),
        spec_codes_total(final(codes)@) == spec_codes_total(old(codes)@) + if spec_code_count(
            old(codes)@,
            code,
        ) < u64::MAX {
            1int
        } else {
            0int
        },
{
    let ghost orig = codes@;
    let mut i: usize = 0;
    while i < codes.len() && codes[i].0 < code
        invariant
            0 <= i <= codes@.len(),
            codes@ == orig,
            forall|j: int| 0 <= j < i ==> (#[trigger] codes@[j]).0 < code,
        decreases codes@.len() - i,
    {
        i = i + 1;
    }
    if i < codes.len() && codes[i].0 == code {
        let current = codes[i].1;
        let bumped = if current < u64::MAX {
            current + 1
        } else {
            u64::MAX
        };
        codes[i].1 = bumped;
        proof {
            lemma_codes_total_update(orig, i as int, bumped);
            assert forall|c: u16| spec_has_code(codes@, c) == (spec_has_code(orig, c) || c
                == code) by {
                if spec_has_code(orig, c) {
                    let k = choose|k: int| 0 <= k < orig.len() && (#[trigger] orig[k]).0 == c;
                    assert(codes@[k].0 == c);
                }
                if spec_has_code(codes@, c) {
                    let k = choose|k: int|
                        0 <= k < codes@.len() && (#[trigger] codes@[k]).0 == c;
                    if k != i {
                        assert(orig[k].0 == c);
                    }
                }
            }
            assert forall|c: u16| #![auto] spec_code_count(codes@, c) == if c == code {
                bumped
            } else {
                spec_code_count(orig, c)
            } by {
                if spec_has_code(codes@, c) {
                    let k = choose|k: int|
                        0 <= k < codes@.len() && (#[trigger] codes@[k]).0 == c;
                    let k0 = choose|k0: int|
                        0 <= k0 < orig.len() && (#[trigger] orig[k0]).0 == c;
                    if c == code {
                        assert(k == i) by {
                            if k != i {
                                assert(orig[k].0 == code && orig[i as int].0 == code);
                            }
                        }
                    } else {
                        assert(k != i && k0 != i);
                        assert(k == k0) by {
                            if k != k0 {
                                assert(orig[k].0 == c && orig[k0].0 == c);
                            }
                        }
                    }
                }
            }
        }
    } else {
        proof {
            lemma_codes_total_insert(orig, i as int, (code, 1u64));
            assert(!spec_has_code(orig, code)) by {
                if spec_has_code(orig, code) {
                    let k = choose|k: int| 0 <= k < orig.len() && (#[trigger] orig[k]).0 == code;
                    assert(k >= i);
                    assert(orig[k].0 == code);
                }
            }
        }
        codes.insert(i, (code, 1));
        proof {
            let updated = codes@;
            assert forall|c: u16| spec_has_code(updated, c) == (spec_has_code(orig, c) || c
                == code) by {
                if spec_has_code(orig, c) {
                    let k = choose|k: int| 0 <= k < orig.len() && (#[trigger] orig[k]).0 == c;
                    if k < i {
                        assert(updated[k].0 == c);
                    } else {
                        assert(updated[k + 1].0 == c);
                    }
                }
                assert(updated[i as int].0 == code);
                if spec_has_code(updated, c) {
                    let k = choose|k: int|
                        0 <= k < updated.len() && (#[trigger] updated[k]).0 == c;
                    if k < i {
                        assert(orig[k].0 == c);
                    } else if k > i {
                        assert(orig[k - 1].0 == c);
                    }
                }
            }
            assert forall|c: u16| #![auto] spec_code_count(updated, c) == if c == code {
                1u64
            } else {
                spec_code_count(orig, c)
            } by {
                if spec_has_code(updated, c) {
                    let k = choose|k: int|
                        0 <= k < updated.len() && (#[trigger] updated[k]).0 == c;
                    if c == code {
                        assert(k == i) by {
                            if k < i {
                                assert(orig[k].0 == c);
                            } else if k > i {
                                assert(orig[k - 1].0 == code);
                            }
                        }
                    } else {
                        assert(k != i);
                        let k0 = choose|k0: int|
                            0 <= k0 < orig.len() && (#[trigger] orig[k0]).0 == c;
                        let shifted = if k < i { k } else { k - 1 };
                        assert(orig[shifted].0 == c);
                        assert(shifted == k0) by {
                            if shifted != k0 {
                                assert(orig[shifted].0 == c && orig[k0].0 == c);
                            }
                        }
                        assert(updated[k].1 == orig[k0].1);
                    }
                }
            }
        }
    }
}

//		Per-endpoint totals

/// Each endpoint appears at most once in the per-endpoint totals, and every
/// recorded aggregate is well-formed.
pub open spec fn spec_endpoints_wf(eps: Seq<(Endpoint, StatsForPeriod)>) -> bool {
    &&& forall|i: int, j: int|
        0 <= i < j < eps.len() ==> (#[trigger] eps[i]).0.key() != (#[trigger] eps[j]).0.key()
    &&& forall|i: int| 0 <= i < eps.len() ==> (#[trigger] eps[i]).1.wf()
}

/// Whether the totals hold an entry for the endpoint key.
pub open spec fn spec_has_endpoint(
    eps: Seq<(Endpoint, StatsForPeriod)>,
    key: (Seq<char>, Seq<char>),
) -> bool {
    exists|i: int| 0 <= i < eps.len() && (#[trigger] eps[i]).0.key() == key
}

/// The aggregate recorded for the endpoint key, empty when absent.
pub open spec fn spec_endpoint_stats(
    eps: Seq<(Endpoint, StatsForPeriod)>,
    key: (Seq<char>, Seq<char>),
) -> StatsForPeriod {
    if spec_has_endpoint(eps, key) {
        eps[choose|i: int| 0 <= i < eps.len() && (#[trigger] eps[i]).0.key() == key].1
    } else {
        StatsForPeriod::spec_empty()
    }
}

/// Folds one timing sample into the endpoint's aggregate, creating the
/// entry when the endpoint has not been seen before.
pub fn upsert_endpoint(
    eps: &mut Vec<(Endpoint, StatsForPeriod)>,
    endpoint: &Endpoint,
    sample: &StatsForPeriod,
)
    requires
        spec_endpoints_wf(old(eps)@),
        sample.wf(),
    ensures
        spec_endpoints_wf(final(eps)@),
        forall|key: (Seq<char>, Seq<char>)|
            spec_has_endpoint(final(eps)@, key) == (spec_has_endpoint(old(eps)@, key) || key
                == endpoint.key()),
        spec_endpoint_stats(final(eps)@, endpoint.key()) == if spec_has_endpoint(
            old(eps)@,
            endpoint.key(),
        ) {
            spec_merged(spec_endpoint_stats(old(eps)@, endpoint.key()), *sample)
        } else {
            *sample
        },
        forall|key: (Seq<char>, Seq<char>)|
            key != endpoint.key() ==> spec_endpoint_stats(final(eps)@, key)
                == spec_endpoint_stats(old(eps)@, key),
{
    let ghost orig = eps@;
    let mut i: usize = 0;
    while i < eps.len() && !eps[i].0.matches(endpoint)
        invariant
            0 <= i <= eps@.len(),
            eps@ == orig,
            forall|j: int| 0 <= j < i ==> (#[trigger] eps@[j]).0.key() != endpoint.key(),
        decreases eps@.len() - i,
    {
        i = i + 1;
    }
    if i < eps.len() {
        let ghost prior = eps@[i as int].1;
        eps[i].1.update(sample);
        proof {
            let updated = eps@;
            assert(updated =~= orig.update(i as int, (orig[i as int].0, spec_merged(prior, *sample))));
            assert forall|key: (Seq<char>, Seq<char>)| spec_has_endpoint(updated, key)
                == (spec_has_endpoint(orig, key) || key == endpoint.key()) by {
                if spec_has_endpoint(orig, key) {
                    let k = choose|k: int|
                        0 <= k < orig.len() && (#[trigger] orig[k]).0.key() == key;
                    assert(updated[k].0.key() == key);
                }
                if spec_has_endpoint(updated, key) {
                    let k = choose|k: int|
                        0 <= k < updated.len() && (#[trigger] updated[k]).0.key() == key;
                    assert(orig[k].0.key() == key);
                }
                assert(orig[i as int].0.key() == endpoint.key());
            }
            assert forall|key: (Seq<char>, Seq<char>)| #![auto] spec_endpoint_stats(updated, key)
                == if key == endpoint.key() {
                spec_merged(prior, *sample)
            } else {
                spec_endpoint_stats(orig, key)
            } by {
                if spec_has_endpoint(updated, key) {
                    let k = choose|k: int|
                        0 <= k < updated.len() && (#[trigger] updated[k]).0.key() == key;
                    let k0 = choose|k0: int|
                        0 <= k0 < orig.len() && (#[trigger] orig[k0]).0.key() == key;
                    if key == endpoint.key() {
                        assert(k == i) by {
                            if k != i {
                                assert(updated[k].0.key() == key && updated[i as int].0.key()
                                    == key);
                            }
                        }
                    } else {
                        assert(k != i && k0 != i);
                        assert(k == k0) by {
                            if k != k0 {
                                assert(orig[k].0.key() == key && orig[k0].0.key() == key);
                            }
                        }
                    }
                }
            }
        }
    } else {
        let entry = (endpoint.duplicate(), *sample);
        eps.push(entry);
        proof {
            let updated = eps@;
            let n = orig.len() as int;
            assert(updated[n].0.key() == endpoint.key());
            assert forall|key: (Seq<char>, Seq<char>)| spec_has_endpoint(updated, key)
                == (spec_has_endpoint(orig, key) || key == endpoint.key()) by {
                if spec_has_endpoint(orig, key) {
                    let k = choose|k: int|
                        0 <= k < orig.len() && (#[trigger] orig[k]).0.key() == key;
                    assert(updated[k].0.key() == key);
                }
                if spec_has_endpoint(updated, key) {
                    let k = choose|k: int|
                        0 <= k < updated.len() && (#[trigger] updated[k]).0.key() == key;
                    if k < n {
                        assert(orig[k].0.key() == key);
                    }
                }
            }
            assert(!spec_has_endpoint(orig, endpoint.key())) by {
                if spec_has_endpoint(orig, endpoint.key()) {
                    let k = choose|k: int|
                        0 <= k < orig.len() && (#[trigger] orig[k]).0.key() == endpoint.key();
                }
            }
            assert forall|key: (Seq<char>, Seq<char>)| #![auto] spec_endpoint_stats(updated, key)
                == if key == endpoint.key() {
                *sample
            } else {
                spec_endpoint_stats(orig, key)
            } by {
                if spec_has_endpoint(updated, key) {
                    let k = choose|k: int|
                        0 <= k < updated.len() && (#[trigger] updated[k]).0.key() == key;
                    if key == endpoint.key() {
                        assert(k == n) by {
                            if k < n {
                                assert(orig[k].0.key() == key);
                            }
                        }
                    } else {
                        assert(k < n);
                        let k0 = choose|k0: int|
                            0 <= k0 < orig.len() && (#[trigger] orig[k0]).0.key() == key;
                        assert(k == k0) by {
                            if k != k0 {
                                assert(orig[k].0.key() == key && orig[k0].0.key() == key);
                            }
                        }
                    }
                }
            }
        }
    }
}

//		AppStatsTotals

/// What recording one response's observations does to the all-time
/// totals: one more response counted under its status code, its timing
/// sample folded into the overall and the per-endpoint response-time
/// aggregates, and its connection and memory samples folded into theirs.
/// Nothing else changes.
pub open spec fn spec_recorded(
    old_t: AppStatsTotals,
    new_t: AppStatsTotals,
    m: ResponseMetrics,
) -> bool {
    &&& new_t.times == spec_merged(old_t.times, StatsForPeriod::spec_initialized(m.time_taken))
    &&& new_t.connections == spec_merged(
        old_t.connections,
        StatsForPeriod::spec_initialized(m.connections),
    )
    &&& new_t.memory == spec_merged(old_t.memory, StatsForPeriod::spec_initialized(m.memory))
    &&& forall|c: u16|
        spec_has_code(new_t.codes@, c) == (spec_has_code(old_t.codes@, c) || c == m.status_code)
    &&& spec_code_count(new_t.codes@, m.status_code) == if spec_code_count(
        old_t.codes@,
        m.status_code,
    ) < u64::MAX {
        spec_code_count(old_t.codes@, m.status_code) + 1
    } else {
        u64::MAX as int
    }
    &&& forall|c: u16|
        c != m.status_code ==> spec_code_count(new_t.codes@, c) == spec_code_count(
            old_t.codes@,
            c,
        )
    &&& spec_codes_total(new_t.codes@) == spec_codes_total(old_t.codes@) + if spec_code_count(
        old_t.codes@,
        m.status_code,
    ) < u64::MAX {
        1int
    } else {
        0int
    }
    &&& spec_endpoint_stats(new_t.endpoints@, m.endpoint.key()) == spec_merged(
        spec_endpoint_stats(old_t.endpoints@, m.endpoint.key()),
        StatsForPeriod::spec_initialized(m.time_taken),
    )
    &&& forall|key: (Seq<char>, Seq<char>)|
        key != m.endpoint.key() ==> spec_endpoint_stats(new_t.endpoints@, key)
            == spec_endpoint_stats(old_t.endpoints@, key)
    &&& forall|key: (Seq<char>, Seq<char>)|
        spec_has_endpoint(new_t.endpoints@, key) == (spec_has_endpoint(old_t.endpoints@, key)
            || key == m.endpoint.key())
}

/// The all-time application statistics totals for each area sampled.
pub struct AppStatsTotals {
    /// The number of responses that have been handled, by status code,
    /// sorted ascending by code.
    pub codes: Vec<(u16, u64)>,

    /// The response-time aggregate since the application last started.
    pub times: StatsForPeriod,

    /// The response-time aggregate by endpoint since the application last
    /// started.
    pub endpoints: Vec<(Endpoint, StatsForPeriod)>,

    /// The open-connections aggregate since the application last started.
    pub connections: StatsForPeriod,

    /// The memory-usage aggregate since the application last started.
    pub memory: StatsForPeriod,
}

impl AppStatsTotals {
    /// Well-formedness of the totals as a whole.
    pub open spec fn wf(self) -> bool {
        &&& spec_codes_sorted(self.codes@)
        &&& spec_codes_valid(self.codes@)
        &&& spec_endpoints_wf(self.endpoints@)
        &&& self.times.wf()
        &&& self.connections.wf()
        &&& self.memory.wf()
    }

    /// Empty totals: no responses counted yet.
    pub fn new() -> (r: AppStatsTotals)
        ensures
            r.wf(),
            r.codes@.len() == 0,
            r.endpoints@.len() == 0,
            r.times == StatsForPeriod::spec_empty(),
            r.connections == StatsForPeriod::spec_empty(),
            r.memory == StatsForPeriod::spec_empty(),
    {
        AppStatsTotals {
            codes: Vec::new(),
            times: StatsForPeriod::default(),
            endpoints: Vec::new(),
            connections: StatsForPeriod::default(),
            memory: StatsForPeriod::default(),
        }
    }

    /// Folds one response's observations into the all-time totals: the
    /// status-code counter is bumped, the timing sample goes into the
    /// overall and the per-endpoint response-time aggregates, and the
    /// connection and memory samples go into their aggregates.
    pub fn record(&mut self, metrics: &ResponseMetrics)
        requires
            old(self).wf(),
            metrics.wf(),
        ensures
            final(self).wf(),
            spec_recorded(*old(self), *final(self), *metrics),
    {
        let new_timing = StatsForPeriod::initialize(metrics.time_taken);
        let new_conn = StatsForPeriod::initialize(metrics.connections);
        let new_memory = StatsForPeriod::initialize(metrics.memory);
        increment_code(&mut self.codes, metrics.status_code);
        self.times.update(&new_timing);
        upsert_endpoint(&mut self.endpoints, &metrics.endpoint, &new_timing);
        self.connections.update(&new_conn);
        self.memory.update(&new_memory);
        proof {
            if !spec_has_endpoint(old(self).endpoints@, metrics.endpoint.key()) {
                super::worker::lemma_merged_identity(new_timing);
            }
        }
    }
}

//		AppStatsBuffers

/// Circular buffers of per-second aggregates for each area sampled,
/// newest first.
pub struct AppStatsBuffers {
    /// A circular buffer of response-time stats per second.
    pub responses: VecDeque<StatsForPeriod>,

    /// A circular buffer of connection stats per second.
    pub connections: VecDeque<StatsForPeriod>,

    /// A circular buffer of memory-usage stats per second.
    pub memory: VecDeque<StatsForPeriod>,
}

/// Entries run newest first, strictly one second apart: the entry at
/// position `i` is the aggregate of the wall-clock second
/// `current_second - 1 - i`.
pub open spec fn spec_chronological(b: Seq<StatsForPeriod>, current_second: i64) -> bool {
    forall|i: int|
        0 <= i < b.len() ==> (#[trigger] b[i]).started_at == current_second - 1 - i
}

/// Every buffer entry is a well-formed aggregate.
pub open spec fn spec_entries_wf(b: Seq<StatsForPeriod>) -> bool {
    forall|i: int| 0 <= i < b.len() ==> (#[trigger] b[i]).wf()
}

impl AppStatsBuffers {
    /// Empty buffers with their capacities reserved up front, so that the
    /// memory footprint is constant from the start.
    pub fn new(timing_size: usize, connection_size: usize, memory_size: usize) -> (r:
        AppStatsBuffers)
        ensures
            r.responses@.len() == 0,
            r.connections@.len() == 0,
            r.memory@.len() == 0,
    {
        AppStatsBuffers {
            responses: VecDeque::with_capacity(timing_size),
            connections: VecDeque::with_capacity(connection_size),
            memory: VecDeque::with_capacity(memory_size),
        }
    }
}

//		AppStats

/// The application statistics data: start time, latest completed second,
/// all-time totals and the per-second ring buffers.  The surrounding
/// runtime owns the locks and atomic counters; this is the data they
/// protect.
pub struct AppStats {
    /// The date and time the application was started, in whole seconds
    /// since the epoch.
    pub started_at: i64,

    /// The latest second period that has been completed, in whole seconds
    /// since the epoch.
    pub last_second: i64,

    /// The all-time totals.
    pub totals: AppStatsTotals,

    /// The per-second circular buffers.
    pub buffers: AppStatsBuffers,
}

impl AppStats {
    /// Fresh statistics for an application started at the given second,
    /// with the buffer capacities reserved.
    pub fn new(started_at: i64, timing_size: usize, connection_size: usize, memory_size: usize)
        -> (r: AppStats)
        ensures
            r.started_at == started_at,
            r.last_second == 0,
            r.totals.wf(),
            r.totals.codes@.len() == 0,
            r.totals.endpoints@.len() == 0,
            r.totals.times == StatsForPeriod::spec_empty(),
            r.totals.connections == StatsForPeriod::spec_empty(),
            r.totals.memory == StatsForPeriod::spec_empty(),
            r.buffers.responses@.len() == 0,
            r.buffers.connections@.len() == 0,
            r.buffers.memory@.len() == 0,
    {
        AppStats {
            started_at,
            last_second: 0,
            totals: AppStatsTotals::new(),
            buffers: AppStatsBuffers::new(timing_size, connection_size, memory_size),
        }
    }
}

} // verus!
