use vstd::prelude::*;

use super::analytic_unit::types::{
    AnalyticUnitConfig, LearningResult, PatchConfig, PatternConfig, default_pattern_config,
    patch_result,
};
use super::types::{
    LearningStatus, LearningWaiter, RequestType, ResponseType, ServiceAction,
};
use crate::services::segments_service::{ID_LENGTH, Segment, SegmentType};
use crate::utils::{get_random_str, is_alphanumeric_char};

verus! {

/// `segments` are the detected intervals `runs`, in order, each a detection with
/// an id of `ID_LENGTH` alphanumeric characters.
pub open spec fn detection_segments(segments: Seq<Segment>, runs: Seq<(u64, u64)>) -> bool {
    &&& segments.len() == runs.len()
    &&& forall|i: int|
        0 <= i < segments.len() ==> {
            let s = #[trigger] segments[i];
            &&& s.from == runs[i].0
            &&& s.to == runs[i].1
            &&& s.segment_type == SegmentType::Detection
            &&& s.id is Some && s.id.unwrap()@.len() == ID_LENGTH
            &&& forall|k: int| 0 <= k < ID_LENGTH ==> is_alphanumeric_char(#[trigger] s.id.unwrap()@[k])
        }
}

/// The detected intervals as detection segments with fresh random ids.
pub fn detections_to_segments(runs: &Vec<(u64, u64)>) -> (r: Vec<Segment>)
    ensures
        detection_segments(r@, runs@),
{
    let mut result: Vec<Segment> = Vec::new();
    let mut i: usize = 0;
    while i < runs.len()
        invariant
            i <= runs@.len(),
            detection_segments(result@, runs@.take(i as int)),
        decreases runs@.len() - i,
    {
        let (from, to) = runs[i];
        let id = get_random_str(ID_LENGTH);
        result.push(Segment { id: Some(id), from, to, segment_type: SegmentType::Detection });
        proof {
            let rr = runs@.take(i + 1);
            assert forall|j: int| 0 <= j < result@.len() implies {
                let s = #[trigger] result@[j];
                &&& s.from == rr[j].0
                &&& s.to == rr[j].1
                &&& s.segment_type == SegmentType::Detection
                &&& s.id is Some && s.id.unwrap()@.len() == ID_LENGTH
                &&& forall|k: int| 0 <= k < ID_LENGTH ==> is_alphanumeric_char(#[trigger] s.id.unwrap()@[k])
            } by {
                if j < i {
                    assert(rr[j] == runs@.take(i as int)[j]);
                }
            }
        }
        i = i + 1;
    }
    proof {
        assert(runs@.take(i as int) =~= runs@);
    }
    result
}

/// The report a learning task sends when it ends.
pub open spec fn learning_response_of(r: LearningResult) -> ResponseType {
    match r {
        LearningResult::Finished => ResponseType::LearningFinished,
        LearningResult::DatasourceError => ResponseType::LearningDatasourceError,
        LearningResult::FinishedEmpty => ResponseType::LearningFinishedEmpty,
    }
}

/// The report a learning task sends when it ends.
pub fn learning_response(r: LearningResult) -> (res: ResponseType)
    ensures
        res == learning_response_of(r),
{
    match r {
        LearningResult::Finished => ResponseType::LearningFinished,
        LearningResult::DatasourceError => ResponseType::LearningDatasourceError,
        LearningResult::FinishedEmpty => ResponseType::LearningFinishedEmpty,
    }
}

/// The state of the analytic service, as a value.
pub struct ServiceView {
    pub config: AnalyticUnitConfig,
    pub status: LearningStatus,
    pub has_unit: bool,
    pub learning_running: bool,
    pub waiters: Seq<LearningWaiter>,
}

/// Starting to learn: a running learning task is aborted, a new one starts with
/// the current configuration.
pub open spec fn learn_step(s: ServiceView) -> (ServiceView, Seq<ServiceAction>) {
    (
        ServiceView { status: LearningStatus::Starting, learning_running: true, ..s },
        if s.learning_running {
            seq![ServiceAction::AbortLearning, ServiceAction::StartLearning(s.config)]
        } else {
            seq![ServiceAction::StartLearning(s.config)]
        },
    )
}

/// Applying a configuration patch.
pub open spec fn patch_step(s: ServiceView, patch: PatchConfig) -> (ServiceView, Seq<ServiceAction>) {
    let (c, need_learning) = patch_result(s.config, patch);
    let s1 = ServiceView { config: c, ..s };
    if need_learning {
        (learn_step(s1).0, learn_step(s1).1.push(ServiceAction::NotifyPatched))
    } else if s.has_unit {
        (s1, seq![ServiceAction::SetUnitConfig(c)])
    } else {
        (s1, seq![ServiceAction::NotifyPatched])
    }
}

/// How the service handles a request.
pub open spec fn request_step(s: ServiceView, req: RequestType) -> (ServiceView, Seq<ServiceAction>) {
    match req {
        RequestType::RunLearning => learn_step(s),
        RequestType::RunDetection(task) => {
            if s.status == LearningStatus::Initialization {
                (s, seq![ServiceAction::SendInitializationError(task.ticket)])
            } else if s.status == LearningStatus::Ready {
                (s, seq![ServiceAction::RunWaiter(LearningWaiter::Detection(task))])
            } else {
                (ServiceView { waiters: s.waiters.push(LearningWaiter::Detection(task)), ..s }, seq![])
            }
        },
        RequestType::GetStatus => (s, seq![ServiceAction::SendStatus(s.status)]),
        RequestType::GetConfig => (s, seq![ServiceAction::SendConfig(s.config)]),
        RequestType::PatchConfig(patch) => patch_step(s, patch),
        RequestType::GetHSR(task) => {
            if s.has_unit {
                (s, seq![ServiceAction::RunWaiter(LearningWaiter::HSR(task))])
            } else {
                (ServiceView { waiters: s.waiters.push(LearningWaiter::HSR(task)), ..s }, seq![])
            }
        },
    }
}

/// The waiters run in the order they are taken off the end of the queue.
pub open spec fn run_waiters_last_first(w: Seq<LearningWaiter>) -> Seq<ServiceAction> {
    Seq::new(w.len(), |i: int| ServiceAction::RunWaiter(w[w.len() - 1 - i]))
}

/// How the service handles a report from a task.
pub open spec fn response_step(s: ServiceView, res: ResponseType) -> (ServiceView, Seq<ServiceAction>) {
    match res {
        ResponseType::DetectionRunnerStarted(_) => (s, seq![]),
        ResponseType::LearningStarted => (ServiceView { status: LearningStatus::Learning, ..s }, seq![]),
        ResponseType::LearningFinished => (
            ServiceView {
                status: LearningStatus::Ready,
                has_unit: true,
                learning_running: false,
                waiters: Seq::empty(),
                ..s
            },
            seq![ServiceAction::InstallLearnedUnit] + run_waiters_last_first(s.waiters),
        ),
        ResponseType::LearningFinishedEmpty => (
            ServiceView { status: LearningStatus::Initialization, has_unit: false, ..s },
            seq![ServiceAction::DropUnit],
        ),
        ResponseType::LearningDatasourceError => (
            ServiceView { status: LearningStatus::Error, has_unit: false, ..s },
            seq![ServiceAction::DropUnit],
        ),
    }
}

/// The service's invariant: it is ready only with a learned unit.
pub open spec fn service_inv(s: ServiceView) -> bool {
    s.status == LearningStatus::Ready ==> s.has_unit
}

/// The analytic service's decisions: the configuration of its unit, the learning
/// status, whether a learned unit is held, whether learning runs, and the work
/// waiting for learning to finish. The runtime performs the actions it returns.
pub struct AnalyticService {
    analytic_unit_config: AnalyticUnitConfig,
    analytic_unit_learning_status: LearningStatus,
    has_analytic_unit: bool,
    learning_running: bool,
    learning_waiters: Vec<LearningWaiter>,
}

impl View for AnalyticService {
    type V = ServiceView;

    closed spec fn view(&self) -> ServiceView {
        ServiceView {
            config: self.analytic_unit_config,
            status: self.analytic_unit_learning_status,
            has_unit: self.has_analytic_unit,
            learning_running: self.learning_running,
            waiters: self.learning_waiters@,
        }
    }
}

impl AnalyticService {
    /// A service with the default pattern configuration, initializing, with no unit.
    pub fn new() -> (s: AnalyticService)
        ensures
            s@.config == AnalyticUnitConfig::Pattern(default_pattern_config()),
            s@.status == LearningStatus::Initialization,
            !s@.has_unit,
            !s@.learning_running,
            s@.waiters.len() == 0,
            service_inv(s@),
    {
        AnalyticService {
            analytic_unit_config: AnalyticUnitConfig::Pattern(PatternConfig::default()),
            analytic_unit_learning_status: LearningStatus::Initialization,
            has_analytic_unit: false,
            learning_running: false,
            learning_waiters: Vec::new(),
        }
    }

    pub fn get_status(&self) -> (st: LearningStatus)
        ensures
            st == self@.status,
    {
        self.analytic_unit_learning_status
    }

    pub fn get_config(&self) -> (c: AnalyticUnitConfig)
        ensures
            c == self@.config,
    {
        self.analytic_unit_config
    }

    fn run_learning(&mut self) -> (actions: Vec<ServiceAction>)
        ensures
            (final(self)@, actions@) == learn_step(old(self)@),
    {
        let mut actions: Vec<ServiceAction> = Vec::new();
        if self.learning_running {
            actions.push(ServiceAction::AbortLearning);
        }
        self.analytic_unit_learning_status = LearningStatus::Starting;
        self.learning_running = true;
        actions.push(ServiceAction::StartLearning(self.analytic_unit_config));
        proof {
            if old(self)@.learning_running {
                assert(actions@ =~= seq![ServiceAction::AbortLearning, ServiceAction::StartLearning(old(self)@.config)]);
            } else {
                assert(actions@ =~= seq![ServiceAction::StartLearning(old(self)@.config)]);
            }
        }
        actions
    }

    /// Applies a configuration patch: a new kind of unit is learned from scratch,
    /// new settings of the same kind go to the current unit if there is one.
    pub fn patch_config(&mut self, patch: PatchConfig) -> (actions: Vec<ServiceAction>)
        ensures
            (final(self)@, actions@) == patch_step(old(self)@, patch),
    {
        let (new_conf, need_learning) = self.analytic_unit_config.patch(patch);
        self.analytic_unit_config = new_conf;
        if need_learning {
            let mut actions = self.run_learning();
            actions.push(ServiceAction::NotifyPatched);
            actions
        } else if self.has_analytic_unit {
            let actions = vec![ServiceAction::SetUnitConfig(new_conf)];
            proof {
                assert(actions@ =~= seq![ServiceAction::SetUnitConfig(new_conf)]);
            }
            actions
        } else {
            let actions = vec![ServiceAction::NotifyPatched];
            proof {
                assert(actions@ =~= seq![ServiceAction::NotifyPatched]);
            }
            actions
        }
    }

    /// Handles a request.
    pub fn consume_request(&mut self, req: RequestType) -> (actions: Vec<ServiceAction>)
        ensures
            (final(self)@, actions@) == request_step(old(self)@, req),
    {
        match req {
            RequestType::RunLearning => self.run_learning(),
            RequestType::RunDetection(task) => {
                if self.analytic_unit_learning_status == LearningStatus::Initialization {
                    let actions = vec![ServiceAction::SendInitializationError(task.ticket)];
                    proof {
                        assert(actions@ =~= seq![ServiceAction::SendInitializationError(task.ticket)]);
                    }
                    actions
                } else if self.analytic_unit_learning_status == LearningStatus::Ready {
                    let actions = vec![ServiceAction::RunWaiter(LearningWaiter::Detection(task))];
                    proof {
                        assert(actions@ =~= seq![ServiceAction::RunWaiter(LearningWaiter::Detection(task))]);
                    }
                    actions
                } else {
                    self.learning_waiters.push(LearningWaiter::Detection(task));
                    let actions: Vec<ServiceAction> = Vec::new();
                    proof {
                        assert(actions@ =~= Seq::<ServiceAction>::empty());
                    }
                    actions
                }
            },
            RequestType::GetStatus => {
                let actions = vec![ServiceAction::SendStatus(self.analytic_unit_learning_status)];
                proof {
                    assert(actions@ =~= seq![ServiceAction::SendStatus(old(self)@.status)]);
                }
                actions
            },
            RequestType::GetConfig => {
                let actions = vec![ServiceAction::SendConfig(self.analytic_unit_config)];
                proof {
                    assert(actions@ =~= seq![ServiceAction::SendConfig(old(self)@.config)]);
                }
                actions
            },
            RequestType::PatchConfig(patch) => self.patch_config(patch),
            RequestType::GetHSR(task) => {
                if self.has_analytic_unit {
                    let actions = vec![ServiceAction::RunWaiter(LearningWaiter::HSR(task))];
                    proof {
                        assert(actions@ =~= seq![ServiceAction::RunWaiter(LearningWaiter::HSR(task))]);
                    }
                    actions
                } else {
                    self.learning_waiters.push(LearningWaiter::HSR(task));
                    let actions: Vec<ServiceAction> = Vec::new();
                    proof {
                        assert(actions@ =~= Seq::<ServiceAction>::empty());
                    }
                    actions
                }
            },
        }
    }

    /// Handles a report from a learning or detection task.
    pub fn consume_response(&mut self, res: ResponseType) -> (actions: Vec<ServiceAction>)
        ensures
            (final(self)@, actions@) == response_step(old(self)@, res),
    {
        match res {
            ResponseType::DetectionRunnerStarted(_) => {
                let actions: Vec<ServiceAction> = Vec::new();
                proof {
                    assert(actions@ =~= Seq::<ServiceAction>::empty());
                }
                actions
            },
            ResponseType::LearningStarted => {
                self.analytic_unit_learning_status = LearningStatus::Learning;
                let actions: Vec<ServiceAction> = Vec::new();
                proof {
                    assert(actions@ =~= Seq::<ServiceAction>::empty());
                }
                actions
            },
            ResponseType::LearningFinished => {
                self.learning_running = false;
                self.has_analytic_unit = true;
                self.analytic_unit_learning_status = LearningStatus::Ready;
                let mut actions: Vec<ServiceAction> = Vec::new();
                actions.push(ServiceAction::InstallLearnedUnit);
                let ghost w = old(self)@.waiters;
                while self.learning_waiters.len() > 0
                    invariant
                        self.learning_waiters@.len() <= w.len(),
                        self.learning_waiters@ == w.take(self.learning_waiters@.len() as int),
                        actions@ == seq![ServiceAction::InstallLearnedUnit]
                            + run_waiters_last_first(w).take(w.len() - self.learning_waiters@.len()),
                        self.learning_running == false,
                        self.has_analytic_unit == true,
                        self.analytic_unit_learning_status == LearningStatus::Ready,
                        self.analytic_unit_config == old(self)@.config,
                    decreases self.learning_waiters@.len(),
                {
                    let ghost n = self.learning_waiters@.len();
                    let task = self.learning_waiters.pop().unwrap();
                    proof {
                        assert(task == w[n - 1]);
                        assert(self.learning_waiters@ =~= w.take(n - 1));
                    }
                    actions.push(ServiceAction::RunWaiter(task));
                    proof {
                        let all = run_waiters_last_first(w);
                        assert(all[w.len() - n] == ServiceAction::RunWaiter(w[n - 1]));
                        assert(actions@ =~= seq![ServiceAction::InstallLearnedUnit] + all.take(w.len() - (n - 1)));
                    }
                }
                proof {
                    assert(run_waiters_last_first(w).take(w.len() as int) =~= run_waiters_last_first(w));
                    assert(self.learning_waiters@ =~= Seq::<LearningWaiter>::empty());
                }
                actions
            },
            ResponseType::LearningFinishedEmpty => {
                self.has_analytic_unit = false;
                self.analytic_unit_learning_status = LearningStatus::Initialization;
                let actions = vec![ServiceAction::DropUnit];
                proof {
                    assert(actions@ =~= seq![ServiceAction::DropUnit]);
                }
                actions
            },
            ResponseType::LearningDatasourceError => {
                self.has_analytic_unit = false;
                self.analytic_unit_learning_status = LearningStatus::Error;
                let actions = vec![ServiceAction::DropUnit];
                proof {
                    assert(actions@ =~= seq![ServiceAction::DropUnit]);
                }
                actions
            },
        }
    }

    /// Starting to serve: the service learns right away.
    pub fn start(&mut self) -> (actions: Vec<ServiceAction>)
        ensures
            (final(self)@, actions@) == request_step(old(self)@, RequestType::RunLearning),
    {
        self.consume_request(RequestType::RunLearning)
    }
}

/// Requests and reports keep the service's invariant: it is ready only with a learned unit.
pub proof fn lemma_steps_keep_inv(s: ServiceView, req: RequestType, res: ResponseType)
    requires
        service_inv(s),
    ensures
        service_inv(request_step(s, req).0),
        service_inv(response_step(s, res).0),
{
}

/// Work that needs a learned unit is only run when the service holds one: the
/// service never asks to run a waiter without a unit.
pub proof fn lemma_waiters_run_only_with_unit(s: ServiceView, req: RequestType, res: ResponseType)
    requires
        service_inv(s),
    ensures
        forall|k: int|
            0 <= k < request_step(s, req).1.len() && (#[trigger] request_step(s, req).1[k]) is RunWaiter
                ==> request_step(s, req).0.has_unit,
        forall|k: int|
            0 <= k < response_step(s, res).1.len() && (#[trigger] response_step(s, res).1[k]) is RunWaiter
                ==> response_step(s, res).0.has_unit,
{
    match req {
        RequestType::PatchConfig(p) => {
            let (c, need) = patch_result(s.config, p);
            let s1 = ServiceView { config: c, ..s };
            if need {
                let a = learn_step(s1).1.push(ServiceAction::NotifyPatched);
                assert forall|k: int| 0 <= k < a.len() implies !(#[trigger] a[k] is RunWaiter) by {
                    if s1.learning_running {
                        assert(k == 0 || k == 1 || k == 2);
                    } else {
                        assert(k == 0 || k == 1);
                    }
                }
            }
        },
        RequestType::RunLearning => {
            let a = learn_step(s).1;
            assert forall|k: int| 0 <= k < a.len() implies !(#[trigger] a[k] is RunWaiter) by {
                if s.learning_running {
                    assert(k == 0 || k == 1);
                } else {
                    assert(k == 0);
                }
            }
        },
        _ => {},
    }
    match res {
        ResponseType::LearningFinished => {},
        _ => {},
    }
}

/// A detection request is never lost: it is answered with an error while the
/// service initializes, run at once when ready, and queued otherwise.
pub proof fn lemma_detection_request_handled(s: ServiceView, task: super::types::DetectionTask)
    ensures
        ({
            let (s2, a) = request_step(s, RequestType::RunDetection(task));
            ||| s.status == LearningStatus::Initialization && a == seq![ServiceAction::SendInitializationError(task.ticket)] && s2 == s
            ||| s.status == LearningStatus::Ready && a == seq![ServiceAction::RunWaiter(LearningWaiter::Detection(task))] && s2 == s
            ||| s.status != LearningStatus::Initialization && s.status != LearningStatus::Ready && a.len() == 0
                && s2.waiters == s.waiters.push(LearningWaiter::Detection(task))
        }),
{
}

/// An HSR request is answered at once with the learned unit when the service holds
/// one, and otherwise queued until learning finishes; in both cases nothing else changes.
pub proof fn lemma_hsr_request_handled(s: ServiceView, task: super::types::HSRTask)
    ensures
        s.has_unit ==> request_step(s, RequestType::GetHSR(task)) == (
            s,
            seq![ServiceAction::RunWaiter(LearningWaiter::HSR(task))],
        ),
        !s.has_unit ==> request_step(s, RequestType::GetHSR(task)).1.len() == 0,
        !s.has_unit ==> request_step(s, RequestType::GetHSR(task)).0 == (ServiceView {
            waiters: s.waiters.push(LearningWaiter::HSR(task)),
            ..s
        }),
{
}

/// Once learning has finished, HSR and detection requests are run at once and
/// nothing is queued.
pub proof fn lemma_requests_after_learning_run_at_once(
    s: ServiceView,
    hsr: super::types::HSRTask,
    det: super::types::DetectionTask,
)
    ensures
        ({
            let s1 = response_step(s, ResponseType::LearningFinished).0;
            &&& request_step(s1, RequestType::GetHSR(hsr)) == (
                s1,
                seq![ServiceAction::RunWaiter(LearningWaiter::HSR(hsr))],
            )
            &&& request_step(s1, RequestType::RunDetection(det)) == (
                s1,
                seq![ServiceAction::RunWaiter(LearningWaiter::Detection(det))],
            )
        }),
{
}

/// How a learning run ends decides the status: a learned unit makes the service
/// ready with the unit installed, an empty result sends it back to initialization,
/// and a datasource error marks it failed; the last two drop the unit.
pub proof fn lemma_learning_outcomes(s: ServiceView)
    ensures
        response_step(s, ResponseType::LearningFinished).0.status == LearningStatus::Ready,
        response_step(s, ResponseType::LearningFinished).0.has_unit,
        !response_step(s, ResponseType::LearningFinished).0.learning_running,
        response_step(s, ResponseType::LearningFinished).1[0] == ServiceAction::InstallLearnedUnit,
        response_step(s, ResponseType::LearningFinishedEmpty) == (
            ServiceView { status: LearningStatus::Initialization, has_unit: false, ..s },
            seq![ServiceAction::DropUnit],
        ),
        response_step(s, ResponseType::LearningDatasourceError) == (
            ServiceView { status: LearningStatus::Error, has_unit: false, ..s },
            seq![ServiceAction::DropUnit],
        ),
        response_step(s, ResponseType::LearningStarted) == (
            ServiceView { status: LearningStatus::Learning, ..s },
            Seq::<ServiceAction>::empty(),
        ),
{
}

/// A learning request starts learning with the current configuration, aborting a
/// run still in progress first.
pub proof fn lemma_learning_request_starts(s: ServiceView)
    ensures
        request_step(s, RequestType::RunLearning).0 == (ServiceView {
            status: LearningStatus::Starting,
            learning_running: true,
            ..s
        }),
        request_step(s, RequestType::RunLearning).1.last() == ServiceAction::StartLearning(s.config),
        request_step(s, RequestType::RunLearning).1.contains(ServiceAction::AbortLearning)
            <==> s.learning_running,
{
    let a = request_step(s, RequestType::RunLearning).1;
    if a.contains(ServiceAction::AbortLearning) {
        let k = choose|k: int| 0 <= k < a.len() && a[k] == ServiceAction::AbortLearning;
    }
    if s.learning_running {
        assert(a[0] == ServiceAction::AbortLearning);
    }
}

/// A patch of the current kind stores the patch's configuration without
/// relearning: a held unit gets the new settings, otherwise the patch is acknowledged.
pub proof fn lemma_patch_same_kind_updates(s: ServiceView, patch: PatchConfig)
    requires
        !patch_result(s.config, patch).1,
    ensures
        request_step(s, RequestType::PatchConfig(patch)).0 == (ServiceView {
            config: patch_result(s.config, patch).0,
            ..s
        }),
        s.has_unit ==> request_step(s, RequestType::PatchConfig(patch)).1 == seq![
            ServiceAction::SetUnitConfig(patch_result(s.config, patch).0),
        ],
        !s.has_unit ==> request_step(s, RequestType::PatchConfig(patch)).1 == seq![
            ServiceAction::NotifyPatched,
        ],
{
}

/// When learning finishes, every waiting request is run (last queued first) and
/// the queue is emptied.
pub proof fn lemma_finished_learning_runs_all_waiters(s: ServiceView)
    ensures
        ({
            let (s2, a) = response_step(s, ResponseType::LearningFinished);
            &&& s2.waiters.len() == 0
            &&& s2.status == LearningStatus::Ready
            &&& a.len() == s.waiters.len() + 1
            &&& forall|k: int| 0 <= k < s.waiters.len() ==> a[k + 1] == ServiceAction::RunWaiter(
                #[trigger] s.waiters[s.waiters.len() - 1 - k],
            )
        }),
{
}

/// Asking for the status or the configuration changes nothing and answers with it.
pub proof fn lemma_queries_change_nothing(s: ServiceView)
    ensures
        request_step(s, RequestType::GetStatus) == (s, seq![ServiceAction::SendStatus(s.status)]),
        request_step(s, RequestType::GetConfig) == (s, seq![ServiceAction::SendConfig(s.config)]),
{
}


/// A patch that selects another kind of unit stores the patched configuration,
/// starts learning with it, and acknowledges the patch last.
pub proof fn lemma_patch_other_kind_relearns(s: ServiceView, patch: PatchConfig)
    requires
        patch_result(s.config, patch).1,
    ensures
        ({
            let (s2, a) = request_step(s, RequestType::PatchConfig(patch));
            &&& s2.config == patch_result(s.config, patch).0
            &&& s2.status == LearningStatus::Starting
            &&& s2.learning_running
            &&& a.contains(ServiceAction::StartLearning(patch_result(s.config, patch).0))
            &&& a.last() == ServiceAction::NotifyPatched
        }),
{
    let c = patch_result(s.config, patch).0;
    let a = request_step(s, RequestType::PatchConfig(patch)).1;
    if s.learning_running {
        assert(a[1] == ServiceAction::StartLearning(c));
    } else {
        assert(a[0] == ServiceAction::StartLearning(c));
    }
}

} // verus!
