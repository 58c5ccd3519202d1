//! The health check of the ingestion service.
use vstd::prelude::*;

verus! {

/// Response for the health check endpoint.
#[derive(Debug)]
pub struct HealthResponse {
    /// Status of the service
    pub status: String,
    /// Version of the service
    pub version: String,
}

/// The health check: the service is "ok" and reports its version.
pub fn check(version: &str) -> (r: HealthResponse)
    ensures
        r.status@ == "ok"@,
        r.version@ == version@,
{
    HealthResponse { status: "ok".to_owned(), version: version.to_owned() }
}

} // verus!
