//! Request data for statistics functionality.

use vstd::prelude::*;

verus! {

//		MeasurementType

/// The type of measurement to get statistics for.
#[derive(Clone, Copy, Debug, PartialEq, Eq, Structural)]
pub enum MeasurementType {
    /// Response times.
    Times,
    /// Active connections.
    Connections,
    /// Memory usage.
    Memory,
}

/// What an already lower-cased measurement name parses to: exactly the
/// three measurement names are recognised.
pub open spec fn spec_measurement_of(s: Seq<char>) -> Option<MeasurementType> {
    if s == "times"@ {
        Some(MeasurementType::Times)
    } else if s == "connections"@ {
        Some(MeasurementType::Connections)
    } else if s == "memory"@ {
        Some(MeasurementType::Memory)
    } else {
        None
    }
}

/// What `str::to_lowercase` returns: a function of the characters alone.
pub uninterp spec fn lower_of(s: Seq<char>) -> Seq<char>;

/// Relies on str::to_lowercase: the result depends on the characters
/// alone, so equal inputs always lower to equal outputs.
#[verifier::external_body]
fn lowercase(s: &str) -> (r: String)
    ensures
        r@ == lower_of(s@),
{
    s.to_lowercase()
}

impl MeasurementType {
    /// Parses a measurement name that is already lower-case.
    pub fn from_lowered(s: &str) -> (r: Option<MeasurementType>)
        ensures
            r == spec_measurement_of(s@),
    {
        let owned = s.to_owned();
        if owned == "times".to_owned() {
            Some(MeasurementType::Times)
        } else if owned == "connections".to_owned() {
            Some(MeasurementType::Connections)
        } else if owned == "memory".to_owned() {
            Some(MeasurementType::Memory)
        } else {
            None
        }
    }

    //		from_str
    /// Parses a measurement name case-insensitively: the name is
    /// lower-cased and then matched against the three measurement names.
    pub fn from_str(s: &str) -> (r: Result<MeasurementType, ()>)
        ensures
            r == match spec_measurement_of(lower_of(s@)) {
                Some(m) => Result::<MeasurementType, ()>::Ok(m),
                None => Result::<MeasurementType, ()>::Err(()),
            },
    {
        let lowered = lowercase(s);
        match MeasurementType::from_lowered(lowered.as_str()) {
            Some(m) => Ok(m),
            None => Err(()),
        }
    }
}

//		GetStatsHistoryParams

/// The parameters for the statistics history query.
#[derive(Clone, Copy, Debug, PartialEq, Eq)]
pub struct GetStatsHistoryParams {
    /// The buffer to get the statistics for; all three when absent.  The
    /// buffer items are returned in order of most-recent first.
    pub buffer: Option<MeasurementType>,

    /// The second to get the statistics from: entries older than this
    /// point in time are cut off.
    pub from: Option<i64>,

    /// The number of buffer entries, i.e. the number of seconds, to get
    /// the statistics for, counted from the most-recent entry backwards.
    pub limit: Option<usize>,
}

impl Default for GetStatsHistoryParams {
    /// No buffer selection, no cut-off, no limit.
    fn default() -> (r: GetStatsHistoryParams)
        ensures
            r.buffer is None,
            r.from is None,
            r.limit is None,
    {
        GetStatsHistoryParams { buffer: None, from: None, limit: None }
    }
}

//		GetStatsFeedParams

/// The parameters for the statistics feed subscription.
#[derive(Clone, Copy, Debug, PartialEq, Eq)]
pub struct GetStatsFeedParams {
    /// The type of measurement to subscribe to statistics for; all three
    /// when absent.
    pub scope: Option<MeasurementType>,
}

impl Default for GetStatsFeedParams {
    /// No measurement filter: the feed carries all three aggregates.
    fn default() -> (r: GetStatsFeedParams)
        ensures
            r.scope is None,
    {
        GetStatsFeedParams { scope: None }
    }
}

} // verus!
