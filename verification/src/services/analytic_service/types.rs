use vstd::prelude::*;

use super::analytic_unit::types::{AnalyticUnitConfig, PatchConfig};

verus! {

/// Where the analytic service stands with learning.
#[derive(Debug, Clone, Copy, PartialEq, Eq, Structural)]
pub enum LearningStatus {
    Initialization,
    Starting,
    Learning,
    Error,
    Ready,
}

/// The training set of the pattern detector: one feature vector and one label per segment.
pub struct LearningTrain<F> {
    pub features: Vec<F>,
    pub target: Vec<bool>,
}

impl<F> Default for LearningTrain<F> {
    fn default() -> (t: Self)
        ensures
            t.features@.len() == 0,
            t.target@.len() == 0,
    {
        LearningTrain { features: Vec::new(), target: Vec::new() }
    }
}

/// A request for the detections in `[from, to]`; `ticket` names the reply channel.
#[derive(Debug, Clone, Copy, PartialEq, Eq, Structural)]
pub struct DetectionTask {
    pub ticket: u64,
    pub from: u64,
    pub to: u64,
}

/// A request for the signal representation of `[from, to]`; `ticket` names the reply channel.
#[derive(Debug, Clone, Copy, PartialEq, Eq, Structural)]
pub struct HSRTask {
    pub ticket: u64,
    pub from: u64,
    pub to: u64,
}

#[derive(Debug, Clone, Copy, PartialEq, Eq, Structural)]
pub struct DetectionRunnerTask {
    pub from: u64,
}

/// Work that needs a learned analytic unit.
#[derive(Debug, Clone, Copy, PartialEq, Eq, Structural)]
pub enum LearningWaiter {
    Detection(DetectionTask),
    DetectionRunner(DetectionRunnerTask),
    HSR(HSRTask),
}

/// Where detections are reported and how often.
pub struct DetectionRunnerConfig {
    pub endpoint: String,
    pub interval: u64,
}

/// A request to the analytic service.
#[derive(Debug, Clone, Copy, PartialEq, Eq, Structural)]
pub enum RequestType {
    RunLearning,
    GetHSR(HSRTask),
    RunDetection(DetectionTask),
    GetStatus,
    PatchConfig(PatchConfig),
    GetConfig,
}

/// A report from a learning or detection task to the analytic service.
#[derive(Debug, Clone, Copy, PartialEq, Eq, Structural)]
pub enum ResponseType {
    DetectionRunnerStarted(u64),
    LearningStarted,
    LearningFinished,
    LearningFinishedEmpty,
    LearningDatasourceError,
}

#[derive(Debug, Clone, Copy, PartialEq, Eq, Structural)]
pub enum AnalyticServiceMessage {
    Request(RequestType),
    Response(ResponseType),
}

/// What the analytic service asks its runtime to do.
#[derive(Debug, Clone, Copy, PartialEq, Eq, Structural)]
pub enum ServiceAction {
    /// Abort the learning task that is running.
    AbortLearning,
    /// Start learning a new unit with this configuration.
    StartLearning(AnalyticUnitConfig),
    /// Answer the detection request `ticket` with the error that analytics is initializing.
    SendInitializationError(u64),
    /// Run this waiting work against the learned unit.
    RunWaiter(LearningWaiter),
    SendStatus(LearningStatus),
    SendConfig(AnalyticUnitConfig),
    /// Keep the unit that learning produced as the current one.
    InstallLearnedUnit,
    /// Forget the current unit.
    DropUnit,
    /// Give the current unit this configuration, then report the patch as done.
    SetUnitConfig(AnalyticUnitConfig),
    /// Report the patch as done.
    NotifyPatched,
}

} // verus!
