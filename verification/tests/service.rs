use hastic::services::analytic_service::analytic_service::{learning_response, AnalyticService};
use hastic::services::analytic_service::analytic_unit::types::{
    AnalyticUnitConfig, LearningResult, PatchConfig, PatternConfig, ThresholdConfig,
};
use hastic::services::analytic_service::types::{
    DetectionTask, HSRTask, LearningStatus, LearningWaiter, RequestType, ResponseType,
    ServiceAction,
};

fn det(ticket: u64) -> DetectionTask {
    DetectionTask { ticket, from: 0, to: 100 }
}

#[test]
fn service_starts_learning() {
    let mut s = AnalyticService::new();
    assert_eq!(s.get_status(), LearningStatus::Initialization);
    let a = s.start();
    assert_eq!(a, vec![ServiceAction::StartLearning(AnalyticUnitConfig::Pattern(PatternConfig::default()))]);
    assert_eq!(s.get_status(), LearningStatus::Starting);
    let a = s.consume_request(RequestType::RunLearning);
    assert_eq!(
        a,
        vec![
            ServiceAction::AbortLearning,
            ServiceAction::StartLearning(AnalyticUnitConfig::Pattern(PatternConfig::default()))
        ]
    );
}

#[test]
fn detection_while_initializing_is_refused() {
    let mut s = AnalyticService::new();
    let a = s.consume_request(RequestType::RunDetection(det(7)));
    assert_eq!(a, vec![ServiceAction::SendInitializationError(7)]);
}

#[test]
fn waiters_run_when_learning_finishes() {
    let mut s = AnalyticService::new();
    s.start();
    assert_eq!(s.consume_response(ResponseType::LearningStarted), vec![]);
    assert_eq!(s.get_status(), LearningStatus::Learning);
    assert_eq!(s.consume_request(RequestType::RunDetection(det(1))), vec![]);
    let h = HSRTask { ticket: 2, from: 0, to: 10 };
    assert_eq!(s.consume_request(RequestType::GetHSR(h)), vec![]);
    let a = s.consume_response(ResponseType::LearningFinished);
    assert_eq!(
        a,
        vec![
            ServiceAction::InstallLearnedUnit,
            ServiceAction::RunWaiter(LearningWaiter::HSR(h)),
            ServiceAction::RunWaiter(LearningWaiter::Detection(det(1))),
        ]
    );
    assert_eq!(s.get_status(), LearningStatus::Ready);
    // now requests run at once
    assert_eq!(
        s.consume_request(RequestType::RunDetection(det(3))),
        vec![ServiceAction::RunWaiter(LearningWaiter::Detection(det(3)))]
    );
    // and the queue was emptied
    assert_eq!(s.consume_response(ResponseType::LearningFinished), vec![ServiceAction::InstallLearnedUnit]);
}

#[test]
fn status_and_config_queries() {
    let mut s = AnalyticService::new();
    assert_eq!(s.consume_request(RequestType::GetStatus), vec![ServiceAction::SendStatus(LearningStatus::Initialization)]);
    assert_eq!(
        s.consume_request(RequestType::GetConfig),
        vec![ServiceAction::SendConfig(AnalyticUnitConfig::Pattern(PatternConfig::default()))]
    );
    assert_eq!(s.get_status(), LearningStatus::Initialization);
}

#[test]
fn empty_learning_and_datasource_error() {
    let mut s = AnalyticService::new();
    s.start();
    assert_eq!(s.consume_response(ResponseType::LearningFinishedEmpty), vec![ServiceAction::DropUnit]);
    assert_eq!(s.get_status(), LearningStatus::Initialization);
    assert_eq!(s.consume_response(ResponseType::LearningDatasourceError), vec![ServiceAction::DropUnit]);
    assert_eq!(s.get_status(), LearningStatus::Error);
    // without a unit, an HSR request waits
    let h = HSRTask { ticket: 4, from: 0, to: 10 };
    assert_eq!(s.consume_request(RequestType::GetHSR(h)), vec![]);
    assert_eq!(s.consume_response(ResponseType::DetectionRunnerStarted(5)), vec![]);
}

#[test]
fn patch_config_paths() {
    let mut s = AnalyticService::new();
    // same kind, no unit: just acknowledged
    assert_eq!(s.consume_request(RequestType::PatchConfig(PatchConfig::Pattern(None))), vec![ServiceAction::NotifyPatched]);
    // other kind: learning starts, then acknowledged
    let t = ThresholdConfig { threshold: 3.0f64.to_bits() };
    let a = s.patch_config(PatchConfig::Threshold(Some(t)));
    assert_eq!(
        a,
        vec![ServiceAction::StartLearning(AnalyticUnitConfig::Threshold(t)), ServiceAction::NotifyPatched]
    );
    assert_eq!(s.get_config(), AnalyticUnitConfig::Threshold(t));
    s.consume_response(ResponseType::LearningFinished);
    // same kind with a unit: the unit gets the new settings
    let t2 = ThresholdConfig { threshold: 4.0f64.to_bits() };
    assert_eq!(
        s.patch_config(PatchConfig::Threshold(Some(t2))),
        vec![ServiceAction::SetUnitConfig(AnalyticUnitConfig::Threshold(t2))]
    );
}

#[test]
fn learning_results_map_to_reports() {
    assert_eq!(learning_response(LearningResult::Finished), ResponseType::LearningFinished);
    assert_eq!(learning_response(LearningResult::FinishedEmpty), ResponseType::LearningFinishedEmpty);
    assert_eq!(learning_response(LearningResult::DatasourceError), ResponseType::LearningDatasourceError);
}
