use vstd::prelude::*;

use crate::services::analytic_service::types::LearningStatus;

verus! {

/// The query of `GET /analytics?from=..&to=..`.
#[derive(Debug, Clone, Copy, PartialEq, Eq, Structural)]
pub struct ListOptions {
    pub from: u64,
    pub to: u64,
}

/// The reply of `GET /analytics/status`.
#[derive(Debug, Clone, Copy, PartialEq, Eq, Structural)]
pub struct Status {
    pub status: LearningStatus,
}

} // verus!
