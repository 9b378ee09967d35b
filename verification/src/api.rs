pub mod analytics;
pub mod metric;
pub mod segments;

use vstd::prelude::*;

verus! {

/// A plain message in an API reply.
pub struct Message {
    pub message: String,
}

} // verus!
