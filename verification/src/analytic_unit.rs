use vstd::prelude::*;

use crate::services::analytic_service::analytic_unit::runs::{collect_runs, scan_runs};
use crate::services::segments_service::{Segment, SegmentType, SegmentView};

verus! {

/// Segments of the metric above a fixed level, from points `(time, value above the
/// level)`: each run of points above it, from its first point to the first point
/// below it. A run still open at the end is not reported. The segments carry no id.
pub fn get_detections(marks: &Vec<(u64, bool)>) -> (r: Vec<Segment>)
    ensures
        r@.len() == scan_runs(marks@).0.len(),
        forall|i: int|
            0 <= i < r@.len() ==> (#[trigger] r@[i])@ == (SegmentView {
                id: None,
                from: scan_runs(marks@).0[i].0,
                to: scan_runs(marks@).0[i].1,
                segment_type: SegmentType::Detection,
            }),
{
    let (runs, _) = collect_runs(marks);
    let mut result: Vec<Segment> = Vec::new();
    let mut i: usize = 0;
    while i < runs.len()
        invariant
            i <= runs@.len(),
            runs@ == scan_runs(marks@).0,
            result@.len() == i,
            forall|j: int|
                0 <= j < i ==> (#[trigger] result@[j])@ == (SegmentView {
                    id: None,
                    from: runs@[j].0,
                    to: runs@[j].1,
                    segment_type: SegmentType::Detection,
                }),
        decreases runs@.len() - i,
    {
        let (from, to) = runs[i];
        result.push(Segment { id: None, from, to, segment_type: SegmentType::Detection });
        i = i + 1;
    }
    result
}

} // verus!
