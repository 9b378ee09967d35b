use vstd::prelude::*;

use super::runs::{runs_closed_at, runs_until};
use super::types::{AnalyticUnitConfig, LearningResult, ThresholdConfig};

verus! {

/// The time step, in seconds, at which the threshold unit reads the metric.
pub const DETECTION_STEP: u64 = 10;

/// The intervals that the threshold unit reports for points `(time, value > threshold)`:
/// each run of points above the threshold, closed at the first point below it, or at
/// the last point when the run lasts to the end.
pub open spec fn threshold_detections(marks: Seq<(u64, bool)>) -> Seq<(u64, u64)> {
    if marks.len() == 0 {
        Seq::empty()
    } else {
        runs_closed_at(marks, marks.last().0)
    }
}

/// Detects the intervals where the metric is above a fixed threshold.
pub struct ThresholdAnalyticUnit {
    id: String,
    config: ThresholdConfig,
}

impl ThresholdAnalyticUnit {
    pub closed spec fn id_view(&self) -> Seq<char> {
        self.id@
    }

    pub closed spec fn config_view(&self) -> ThresholdConfig {
        self.config
    }

    pub fn new(id: String, config: ThresholdConfig) -> (u: ThresholdAnalyticUnit)
        ensures
            u.id_view() == id@,
            u.config_view() == config,
    {
        ThresholdAnalyticUnit { id, config }
    }

    pub fn get_id(&self) -> (id: String)
        ensures
            id@ == self.id_view(),
    {
        self.id.clone()
    }

    /// The time step at which the unit reads the metric.
    pub fn get_detection_window(&self) -> (w: u64)
        ensures
            w == DETECTION_STEP,
    {
        DETECTION_STEP
    }

    /// The threshold, as the bit pattern of an `f64`.
    pub fn threshold(&self) -> (t: u64)
        ensures
            t == self.config_view().threshold,
    {
        self.config.threshold
    }

    /// The threshold unit learns nothing: learning always finishes.
    pub fn learn(&mut self) -> (r: LearningResult)
        ensures
            r == LearningResult::Finished,
            final(self).id_view() == old(self).id_view(),
            final(self).config_view() == old(self).config_view(),
    {
        LearningResult::Finished
    }

    /// Takes the settings of a threshold configuration.
    pub fn set_config(&mut self, config: AnalyticUnitConfig)
        requires
            config is Threshold,
        ensures
            final(self).id_view() == old(self).id_view(),
            AnalyticUnitConfig::Threshold(final(self).config_view()) == config,
    {
        if let AnalyticUnitConfig::Threshold(cfg) = config {
            self.config = cfg;
        }
    }

    /// The detected intervals for points `(time, value > threshold)` of the metric.
    pub fn detect(&self, marks: &Vec<(u64, bool)>) -> (r: Vec<(u64, u64)>)
        ensures
            r@ == threshold_detections(marks@),
    {
        if marks.len() == 0 {
            return Vec::new();
        }
        let last = marks[marks.len() - 1].0;
        runs_until(marks, last)
    }
}

} // verus!
