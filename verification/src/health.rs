//! The liveness probe's answer: stateless, independent of the store.

use vstd::prelude::*;

verus! {

/// Liveness report of the service.
#[derive(Debug, Clone, Copy, PartialEq, Eq, Structural)]
pub enum HealthStatus {
    OK,
    Unavailable,
}

/// Body of the health probe: the current status.
pub struct HealthCheckResponse {
    pub status: HealthStatus,
}

impl HealthCheckResponse {
    /// The response the probe gives while the service is up.
    pub fn ok() -> (r: Self)
        ensures
            r.status == HealthStatus::OK,
    {
        Self { status: HealthStatus::OK }
    }
}

} // verus!
