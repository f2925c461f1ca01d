//! Response data for the health check endpoints.

use vstd::prelude::*;

verus! {

//		HealthVersionResponse

/// The current version information returned by the version endpoint.
pub struct HealthVersionResponse {
    /// The current version of the application.
    pub version: String,
}

impl HealthVersionResponse {
    /// Wraps a version string for the version endpoint.
    pub fn new(version: String) -> (r: HealthVersionResponse)
        ensures
            r.version == version,
    {
        HealthVersionResponse { version }
    }
}

} // verus!
