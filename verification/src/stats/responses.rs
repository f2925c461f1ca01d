//! Response data for statistics functionality.

use vstd::prelude::*;
use super::worker::{Endpoint, StatsForPeriod};

verus! {

//		StatsResponse

/// The application statistics overview.
///
/// The period maps hold one aggregate per configured period in ascending
/// order of window length, followed by the all-time `"all"` entry; the
/// status-code counters are sorted ascending by code.
pub struct StatsResponse {
    /// The second in which the application was started.
    pub started_at: i64,

    /// The latest second period that has been completed.
    pub last_second: i64,

    /// The amount of time the application has been running, in seconds.
    pub uptime: u64,

    /// The current number of open connections, i.e. requests that have
    /// not yet been responded to.
    pub active: u64,

    /// The number of requests that have been made.
    pub requests: u64,

    /// The number of responses that have been handled, by status code,
    /// sorted ascending by code.
    pub codes: Vec<(u16, u64)>,

    /// The response-time aggregates in microseconds, grouped by time
    /// period.
    pub times: Vec<(String, StatsForPeriod)>,

    /// The response-time aggregates grouped by endpoint, since the
    /// application last started.
    pub endpoints: Vec<(Endpoint, StatsForPeriod)>,

    /// The open-connections aggregates, grouped by time period.
    pub connections: Vec<(String, StatsForPeriod)>,

    /// The memory-usage aggregates in bytes, grouped by time period.
    pub memory: Vec<(String, StatsForPeriod)>,
}

//		StatsHistoryResponse

/// The historical per-second statistics interval data, newest first.
pub struct StatsHistoryResponse {
    /// The latest second period that has been completed.
    pub last_second: i64,

    /// The response-time aggregates per second, newest first.
    pub times: Vec<StatsForPeriod>,

    /// The connection aggregates per second, newest first.
    pub connections: Vec<StatsForPeriod>,

    /// The memory-usage aggregates per second, newest first.
    pub memory: Vec<StatsForPeriod>,
}

impl Default for StatsHistoryResponse {
    /// No completed second and no entries.
    fn default() -> (r: StatsHistoryResponse)
        ensures
            r.last_second == 0,
            r.times@.len() == 0,
            r.connections@.len() == 0,
            r.memory@.len() == 0,
    {
        StatsHistoryResponse {
            last_second: 0,
            times: Vec::new(),
            connections: Vec::new(),
            memory: Vec::new(),
        }
    }
}

} // verus!
