pub mod analytic_service;
pub mod analytic_unit;
pub mod detection_runner;
pub mod types;

use vstd::prelude::*;

use self::analytic_service::{detection_segments, detections_to_segments};
use self::analytic_unit::runs::{runs_closed_at, runs_until};
use super::segments_service::Segment;

verus! {

/// The threshold detections of the range `[from, to]` as segments with fresh ids,
/// from points `(time, value > threshold)`: each run above the threshold up to the
/// first point below it, a run lasting to the end closed at `to`.
pub fn get_threshold_detections(marks: &Vec<(u64, bool)>, to: u64) -> (r: Vec<Segment>)
    ensures
        detection_segments(r@, runs_closed_at(marks@, to)),
{
    let runs = runs_until(marks, to);
    detections_to_segments(&runs)
}

} // verus!
