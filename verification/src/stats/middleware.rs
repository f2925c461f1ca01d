//! The capture hook's context and sample construction.

use vstd::prelude::*;
use super::worker::{Endpoint, ResponseMetrics};

verus! {

//		Context

/// The statistics context attached to a request when it enters the
/// capture hook.
#[derive(Clone, Copy, Debug, PartialEq, Eq, Structural)]
pub struct Context {
    /// The time the request processing started, in microseconds since
    /// the epoch.
    pub started_at: i64,
}

impl Context {
    /// A context stamped with the given start time.
    pub fn new(started_at: i64) -> (r: Context)
        ensures
            r.started_at == started_at,
    {
        Context { started_at }
    }
}

//		build_metrics
/// Builds the sample for one completed response: the time taken is the
/// elapsed microseconds clamped below at zero (a clock that runs
/// backwards yields zero, never a panic), and the start time is floored
/// to its whole second.
pub fn build_metrics(
    endpoint: Endpoint,
    context: &Context,
    now_us: i64,
    status_code: u16,
    connections: u64,
    memory: u64,
) -> (r: ResponseMetrics)
    requires
        0 <= context.started_at,
        0 <= now_us,
        100 <= status_code < 1000,
    ensures
        r.endpoint == endpoint,
        r.started_at == context.started_at / 1_000_000,
        r.time_taken == if now_us >= context.started_at {
            now_us - context.started_at
        } else {
            0int
        },
        r.status_code == status_code,
        r.connections == connections,
        r.memory == memory,
        r.wf(),
        0 <= r.started_at,
{
    let time_taken: u64 = if now_us >= context.started_at {
        (now_us - context.started_at) as u64
    } else {
        0
    };
    let started_second: i64 = ((context.started_at as u64) / 1_000_000) as i64;
    ResponseMetrics {
        endpoint,
        started_at: started_second,
        time_taken,
        status_code,
        connections,
        memory,
    }
}

} // verus!
