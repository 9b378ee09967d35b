use vstd::prelude::*;

use crate::services::segments_service::SegmentId;

verus! {

/// The query of `GET /segments?from=..&to=..` and `DELETE /segments?from=..&to=..`.
#[derive(Debug, Clone, Copy, PartialEq, Eq, Structural)]
pub struct ListOptions {
    pub from: u64,
    pub to: u64,
}

/// The reply to creating a segment.
pub struct CreateResponse {
    pub id: SegmentId,
}

} // verus!
