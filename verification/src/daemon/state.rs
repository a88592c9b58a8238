//! The state that the daemon owns, the actions that it asks for, and the
//! mathematical model of both.

use vstd::prelude::*;
use crate::api::{ReloadReport, ReloadReportView};
use crate::model::{
    opt_view, seq_view, FrequencyLimits, HealthIssue, IssueView, ModeSelection, ProcessIdentity,
    ProcessInfo, ProcessView, ProfileId, Scene, ThermalReading, ThermalState,
};
use crate::platform::{
    CpuCounters, CpuTimeSnapshot, CpuTimes, LoadRatio, ProcessSchedulingState, SchedulingView,
    SystemdUnitProperties, TouchContactId, UnitView,
};
use crate::table::{Table, Value};
use crate::text::opt_text;
use super::config::{ConfigModel, ObserverSettings, ResolvedConfiguration, SettingsView};
use super::contacts::ActiveTouchContacts;
use super::hints::HintSet;
use super::names::{ErrorView, MutationReceipt, ReceiptView, RuntimeError};
use super::rules::{AppRuleConfig, RuleView};

verus! {

/// Which backends the actuator has.
#[derive(Clone, Copy, Debug, PartialEq, Eq, Structural)]
pub struct ActuatorFacts {
    pub process_backend: bool,
    pub systemd_backend: bool,
}

/// What the actuator says of itself when asked.
#[derive(Debug)]
pub enum ActuatorMode {
    ReadWrite,
    /// It accepts no mutation, for the given reason.
    ReadOnlyDegraded(String),
    /// It could not answer.
    Unknown(String),
}

/// One answer of the actuator.
#[derive(Debug)]
pub struct ActuatorReport {
    pub mode: ActuatorMode,
    /// Whether changes of an earlier run still have to be undone; absent where
    /// that could not be read.
    pub recovery_required: Option<bool>,
}

/// The view of [`ActuatorReport`].
pub struct ReportView {
    /// The reason why no mutation is accepted, if so.
    pub refusal: Option<Seq<char>>,
    pub recovery_required: Option<bool>,
}

impl View for ActuatorReport {
    type V = ReportView;

    open spec fn view(&self) -> ReportView {
        ReportView {
            refusal: match self.mode {
                ActuatorMode::ReadWrite => None,
                ActuatorMode::ReadOnlyDegraded(s) => Some(s@),
                ActuatorMode::Unknown(s) => Some(s@),
            },
            recovery_required: self.recovery_required,
        }
    }
}

/// The scheduling planned or applied for one task.
#[derive(Debug)]
pub struct TaskPlan {
    pub identity: ProcessIdentity,
    pub scheduling: ProcessSchedulingState,
}

/// The view of [`TaskPlan`].
pub struct TaskView {
    pub identity: ProcessIdentity,
    pub scheduling: SchedulingView,
}

impl View for TaskPlan {
    type V = TaskView;

    open spec fn view(&self) -> TaskView {
        TaskView { identity: self.identity, scheduling: self.scheduling@ }
    }
}

/// What policy wants.
#[derive(Debug)]
pub struct DesiredPlan {
    pub generation: u64,
    pub effective_profile: ProfileId,
    pub dominant_scene: Scene,
    pub frequencies: Table<FrequencyLimits>,
    pub tasks: Vec<TaskPlan>,
}

/// The view of [`DesiredPlan`].
pub struct PlanView {
    pub generation: u64,
    pub effective_profile: ProfileId,
    pub dominant_scene: Scene,
    pub frequencies: Map<Seq<char>, FrequencyLimits>,
    pub tasks: Seq<TaskView>,
}

impl View for DesiredPlan {
    type V = PlanView;

    open spec fn view(&self) -> PlanView {
        PlanView {
            generation: self.generation,
            effective_profile: self.effective_profile,
            dominant_scene: self.dominant_scene,
            frequencies: self.frequencies@,
            tasks: seq_view(self.tasks@),
        }
    }
}

/// What is in force, as far as it was verified.
#[derive(Debug)]
pub struct AppliedState {
    pub generation: u64,
    pub frequencies: Table<FrequencyLimits>,
    pub tasks: Vec<TaskPlan>,
}

/// The view of [`AppliedState`].
pub struct AppliedView {
    pub generation: u64,
    pub frequencies: Map<Seq<char>, FrequencyLimits>,
    pub tasks: Seq<TaskView>,
}

impl View for AppliedState {
    type V = AppliedView;

    open spec fn view(&self) -> AppliedView {
        AppliedView {
            generation: self.generation,
            frequencies: self.frequencies@,
            tasks: seq_view(self.tasks@),
        }
    }
}

/// Nothing is in force.
pub open spec fn nothing_applied() -> AppliedView {
    AppliedView { generation: 0, frequencies: Map::empty(), tasks: Seq::empty() }
}

impl AppliedState {
    /// Nothing is in force.
    pub fn none() -> (out: Self)
        ensures
            out@ == nothing_applied(),
    {
        let out = AppliedState { generation: 0, frequencies: Table::new(), tasks: Vec::new() };
        assert(seq_view(out.tasks@) =~= Seq::<TaskView>::empty());
        out
    }
}

/// A frequency window as read from the kernel.
#[derive(Clone, Copy, Debug, PartialEq, Eq, Structural)]
pub struct ObservedFrequency {
    pub limits: FrequencyLimits,
    /// The instantaneous frequency in hertz, where it was read.
    pub current: Option<u64>,
}

impl View for ObservedFrequency {
    type V = ObservedFrequency;

    open spec fn view(&self) -> ObservedFrequency {
        *self
    }
}

/// A manual frequency window with its end.
#[derive(Clone, Copy, Debug, PartialEq, Eq, Structural)]
pub struct TimedOverride {
    pub limits: FrequencyLimits,
    pub expires_at: Option<u64>,
}

impl View for TimedOverride {
    type V = TimedOverride;

    open spec fn view(&self) -> TimedOverride {
        *self
    }
}

/// The load of one CPU.
#[derive(Clone, Copy, Debug, PartialEq, Eq, Structural)]
pub struct CpuLoadSample {
    pub cpu: u32,
    pub load: LoadRatio,
}

/// What a process identity is looked up for.
#[derive(Clone, Copy, Debug, PartialEq, Eq, Structural)]
pub enum IdentityPurpose {
    /// A caller selects a workload.
    Select { pid: u32, requested_profile: Option<ProfileId>, caller_uid: u32, ticket: u64 },
    /// A caller clears the workload.
    Clear { expected: ProcessIdentity, caller_uid: u32, ticket: u64 },
    /// The daemon checks that the workload still runs.
    Refresh { expected: ProcessIdentity },
}

/// An identity lookup on its way.
#[derive(Clone, Copy, Debug, PartialEq, Eq, Structural)]
pub struct IdentityInFlight {
    pub id: u64,
    pub is_control_request: bool,
}

impl IdentityPurpose {
    /// Whether a caller waits for the result.
    pub open spec fn control(self) -> bool {
        !(self is Refresh)
    }

    /// Whether a caller waits for the result.
    pub fn is_control_request(&self) -> (r: bool)
        ensures
            r == self.control(),
    {
        match self {
            IdentityPurpose::Refresh { .. } => false,
            _ => true,
        }
    }
}

/// A parsed configuration that waits for its turn.
#[derive(Debug)]
pub struct ReloadCandidate {
    pub ticket: u64,
    pub configuration: ResolvedConfiguration,
}

/// Work that the state owner asks for. Tickets name the caller that waits for
/// an answer.
#[allow(inconsistent_fields)]
#[derive(Debug)]
pub enum Action {
    AnswerSleep { ticket: u64, result: Result<(), String> },
    AnswerControl { ticket: u64, result: Result<(), RuntimeError> },
    AnswerMutation { ticket: u64, result: Result<MutationReceipt, RuntimeError> },
    AnswerReload { ticket: u64, result: Result<ReloadReport, RuntimeError> },
    /// Undo every change that is in force.
    StartRestore { id: u64 },
    /// Hand new upper caps to the frequency fence.
    StartSafetyUpdate { id: u64, caps: Table<u64> },
    /// Look a process up.
    ReadIdentity { id: u64, pid: u32, purpose: IdentityPurpose },
    /// Read and resolve the configuration files.
    LoadConfiguration { ticket: u64 },
    /// Store the application rules.
    PersistRules {
        ticket: u64,
        rules: Vec<AppRuleConfig>,
        changed_id: String,
        message: &'static str,
    },
    /// Hand new settings to the observers.
    ReplaceSettings { settings: ObserverSettings },
    /// Start over with one fresh guard for each thermal zone.
    ResetThermalGuards,
    /// Tell every thermal guard that its sensor is unavailable.
    MarkThermalUnavailable { now: u64 },
    /// Start over with a fresh heavy-load detector.
    ResetLoadDetector,
    /// Run the policy engine and report its plan. Where `then_barriers` is set,
    /// the mutation barriers are driven once more after that.
    Evaluate { then_barriers: bool },
    /// Bring the system in line with the plan.
    Reconcile { frequencies: bool, scheduler: bool },
}

/// The view of [`Action`].
#[allow(inconsistent_fields)]
pub enum ActionView {
    AnswerSleep { ticket: u64, result: Result<(), Seq<char>> },
    AnswerControl { ticket: u64, result: Result<(), ErrorView> },
    AnswerMutation { ticket: u64, result: Result<ReceiptView, ErrorView> },
    AnswerReload { ticket: u64, result: Result<ReloadReportView, ErrorView> },
    StartRestore { id: u64 },
    StartSafetyUpdate { id: u64, caps: Map<Seq<char>, u64> },
    ReadIdentity { id: u64, pid: u32, purpose: IdentityPurpose },
    LoadConfiguration { ticket: u64 },
    PersistRules {
        ticket: u64,
        rules: Seq<RuleView>,
        changed_id: Seq<char>,
        message: Seq<char>,
    },
    ReplaceSettings { settings: SettingsView },
    ResetThermalGuards,
    MarkThermalUnavailable { now: u64 },
    ResetLoadDetector,
    Evaluate { then_barriers: bool },
    Reconcile { frequencies: bool, scheduler: bool },
}

impl View for Action {
    type V = ActionView;

    open spec fn view(&self) -> ActionView {
        match *self {
            Action::AnswerSleep { ticket, result } => ActionView::AnswerSleep {
                ticket,
                result: match result {
                    Ok(()) => Ok(()),
                    Err(e) => Err(e@),
                },
            },
            Action::AnswerControl { ticket, result } => ActionView::AnswerControl {
                ticket,
                result: match result {
                    Ok(()) => Ok(()),
                    Err(e) => Err(e@),
                },
            },
            Action::AnswerMutation { ticket, result } => ActionView::AnswerMutation {
                ticket,
                result: mutation_view(result),
            },
            Action::AnswerReload { ticket, result } => ActionView::AnswerReload {
                ticket,
                result: match result {
                    Ok(r) => Ok(r@),
                    Err(e) => Err(e@),
                },
            },
            Action::StartRestore { id } => ActionView::StartRestore { id },
            Action::StartSafetyUpdate { id, caps } => ActionView::StartSafetyUpdate {
                id,
                caps: caps@,
            },
            Action::ReadIdentity { id, pid, purpose } => ActionView::ReadIdentity {
                id,
                pid,
                purpose,
            },
            Action::LoadConfiguration { ticket } => ActionView::LoadConfiguration { ticket },
            Action::PersistRules { ticket, rules, changed_id, message } => ActionView::PersistRules {
                ticket,
                rules: seq_view(rules@),
                changed_id: changed_id@,
                message: message@,
            },
            Action::ReplaceSettings { settings } => ActionView::ReplaceSettings {
                settings: settings@,
            },
            Action::ResetThermalGuards => ActionView::ResetThermalGuards,
            Action::MarkThermalUnavailable { now } => ActionView::MarkThermalUnavailable { now },
            Action::ResetLoadDetector => ActionView::ResetLoadDetector,
            Action::Evaluate { then_barriers } => ActionView::Evaluate { then_barriers },
            Action::Reconcile { frequencies, scheduler } => ActionView::Reconcile {
                frequencies,
                scheduler,
            },
        }
    }
}

/// The view of the result of a mutation.
pub open spec fn mutation_view(r: Result<MutationReceipt, RuntimeError>) -> Result<
    ReceiptView,
    ErrorView,
> {
    match r {
        Ok(x) => Ok(x@),
        Err(e) => Err(e@),
    }
}

/// The view of [`CpuTimeSnapshot`].
pub struct SnapshotView {
    pub observed_at: u64,
    pub aggregate: CpuTimes,
    pub cpus: Seq<CpuCounters>,
}

impl View for CpuTimeSnapshot {
    type V = SnapshotView;

    open spec fn view(&self) -> SnapshotView {
        SnapshotView {
            observed_at: self.observed_at,
            aggregate: self.aggregate,
            cpus: self.cpus@,
        }
    }
}

/// What may be mutated, and what is known to need work.
#[derive(Clone, Copy, Debug, PartialEq, Eq, Structural)]
pub struct Gates {
    pub actuator: Option<ActuatorFacts>,
    pub actuator_read_only: bool,
    pub startup_recovery_pending: bool,
    pub suspended: bool,
    pub mutations_activated: bool,
    pub accepting_control: bool,
    pub stop_requested: bool,
    pub scheduler_dirty: bool,
    pub capabilities_changed_pending: bool,
}

/// Which work is on its way or waits for its turn.
#[derive(Clone, Copy, Debug, PartialEq, Eq, Structural)]
pub struct Work {
    pub reconcile_in_flight: bool,
    pub reconcile_pending: bool,
    pub inflight_frequency: bool,
    pub inflight_scheduler: bool,
    pub restore_in_flight: Option<u64>,
    pub next_restore_id: u64,
    pub restore_requested: bool,
    pub restored_while_suspended: bool,
    pub pending_resume: bool,
    pub identity_in_flight: Option<IdentityInFlight>,
    pub next_identity_id: u64,
    pub safety_update_in_flight: Option<u64>,
    pub next_safety_update_id: u64,
    pub app_persist_in_flight: bool,
    pub reload_in_flight: bool,
}

/// Failure counts and the times before which nothing is retried.
#[derive(Clone, Copy, Debug, PartialEq, Eq, Structural)]
pub struct Retry {
    pub frequency_failures: u32,
    pub frequency_not_before: u64,
    pub scheduler_failures: u32,
    pub scheduler_not_before: u64,
}

/// Generations, revisions and check times.
#[derive(Clone, Copy, Debug, PartialEq, Eq, Structural)]
pub struct Counters {
    pub generation: u64,
    pub state_revision: u64,
    pub config_generation: u64,
    pub observer_generation: u64,
    pub telemetry_sequence: u64,
    pub last_workload_check: u64,
    pub last_scheduler_scan: u64,
}

/// The callers that wait for a transition.
#[derive(Debug)]
pub struct Waiters {
    pub sleep: Vec<u64>,
    pub wake: Vec<u64>,
    pub stop: Vec<u64>,
}

/// The view of [`Waiters`].
pub struct WaitersView {
    pub sleep: Seq<u64>,
    pub wake: Seq<u64>,
    pub stop: Seq<u64>,
}

impl View for Waiters {
    type V = WaitersView;

    open spec fn view(&self) -> WaitersView {
        WaitersView { sleep: self.sleep@, wake: self.wake@, stop: self.stop@ }
    }
}

/// Failures that only a restart may clear.
#[derive(Debug)]
pub struct Failures {
    pub restore: Option<String>,
    pub safety: Option<String>,
    pub worker: Option<String>,
}

/// The view of [`Failures`].
pub struct FailuresView {
    pub restore: Option<Seq<char>>,
    pub safety: Option<Seq<char>>,
    pub worker: Option<Seq<char>>,
}

impl View for Failures {
    type V = FailuresView;

    open spec fn view(&self) -> FailuresView {
        FailuresView {
            restore: opt_text(self.restore),
            safety: opt_text(self.safety),
            worker: opt_text(self.worker),
        }
    }
}

/// What the user selected.
#[derive(Debug)]
pub struct Selection {
    pub mode: ModeSelection,
    pub workload: Option<ProcessInfo>,
    pub profile: Option<ProfileId>,
    pub overrides: Table<TimedOverride>,
}

/// The view of [`Selection`].
pub struct SelectionView {
    pub mode: ModeSelection,
    pub workload: Option<ProcessView>,
    pub profile: Option<ProfileId>,
    pub overrides: Map<Seq<char>, TimedOverride>,
}

impl View for Selection {
    type V = SelectionView;

    open spec fn view(&self) -> SelectionView {
        SelectionView {
            mode: self.mode,
            workload: opt_view(self.workload),
            profile: self.profile,
            overrides: self.overrides@,
        }
    }
}

/// What the observers saw last.
#[derive(Debug)]
pub struct Observed {
    pub timestamp: u64,
    pub cpu_loads: Vec<CpuLoadSample>,
    pub frequencies: Table<ObservedFrequency>,
    pub thermal: Table<ThermalReading>,
    pub maximum_temperature: Option<i64>,
    pub previous_cpu_times: Option<CpuTimeSnapshot>,
    pub last_load_success: Option<u64>,
    pub last_frequency_success: Option<u64>,
    pub hints: HintSet,
    pub contacts: ActiveTouchContacts,
}

/// The view of [`Observed`].
pub struct ObservedView {
    pub timestamp: u64,
    pub cpu_loads: Seq<CpuLoadSample>,
    pub frequencies: Map<Seq<char>, ObservedFrequency>,
    pub thermal: Map<Seq<char>, ThermalReading>,
    pub maximum_temperature: Option<i64>,
    pub previous_cpu_times: Option<SnapshotView>,
    pub last_load_success: Option<u64>,
    pub last_frequency_success: Option<u64>,
    pub hints: Map<Scene, Option<u64>>,
    pub contacts: Set<TouchContactId>,
}

impl View for Observed {
    type V = ObservedView;

    open spec fn view(&self) -> ObservedView {
        ObservedView {
            timestamp: self.timestamp,
            cpu_loads: self.cpu_loads@,
            frequencies: self.frequencies@,
            thermal: self.thermal@,
            maximum_temperature: self.maximum_temperature,
            previous_cpu_times: opt_view(self.previous_cpu_times),
            last_load_success: self.last_load_success,
            last_frequency_success: self.last_frequency_success,
            hints: self.hints@,
            contacts: self.contacts@,
        }
    }
}

/// The thermal verdict and the upper caps that follow from it.
#[derive(Debug)]
pub struct Caps {
    pub thermal_state: ThermalState,
    pub thermal: Table<u64>,
    pub requested: Table<u64>,
    pub pending: Option<Table<u64>>,
}

/// The view of [`Caps`].
pub struct CapsView {
    pub thermal_state: ThermalState,
    pub thermal: Map<Seq<char>, u64>,
    pub requested: Map<Seq<char>, u64>,
    pub pending: Option<Map<Seq<char>, u64>>,
}

impl View for Caps {
    type V = CapsView;

    open spec fn view(&self) -> CapsView {
        CapsView {
            thermal_state: self.thermal_state,
            thermal: self.thermal@,
            requested: self.requested@,
            pending: opt_view(self.pending),
        }
    }
}

/// What is wanted, what is in force, and what waits to be.
#[derive(Debug)]
pub struct Plans {
    pub desired: Option<DesiredPlan>,
    pub applied: AppliedState,
    pub units: Table<SystemdUnitProperties>,
    pub reload: Option<ReloadCandidate>,
}

/// The view of [`Plans`].
pub struct PlansView {
    pub desired: Option<PlanView>,
    pub applied: AppliedView,
    pub units: Map<Seq<char>, UnitView>,
    pub reload: Option<CandidateView>,
}

/// The view of [`ReloadCandidate`].
pub struct CandidateView {
    pub ticket: u64,
    pub configuration: ConfigModel,
}

impl View for ReloadCandidate {
    type V = CandidateView;

    open spec fn view(&self) -> CandidateView {
        CandidateView { ticket: self.ticket, configuration: self.configuration@ }
    }
}

impl View for Plans {
    type V = PlansView;

    open spec fn view(&self) -> PlansView {
        PlansView {
            desired: opt_view(self.desired),
            applied: self.applied@,
            units: self.units@,
            reload: opt_view(self.reload),
        }
    }
}

/// The single owner of the runtime state. Every input is one call of one of its
/// methods; what has to happen outside is appended to `outbox`.
#[derive(Debug)]
pub struct RuntimeActor {
    pub outbox: Vec<Action>,
    pub health_issues: Table<HealthIssue>,
    pub configuration: ResolvedConfiguration,
    pub gates: Gates,
    pub work: Work,
    pub retry: Retry,
    pub counters: Counters,
    pub waiters: Waiters,
    pub failures: Failures,
    pub selection: Selection,
    pub observed: Observed,
    pub caps: Caps,
    pub plans: Plans,
}

/// The mathematical model of [`RuntimeActor`].
pub struct Model {
    pub outbox: Seq<ActionView>,
    pub issues: Map<Seq<char>, IssueView>,
    pub configuration: ConfigModel,
    pub gates: Gates,
    pub work: Work,
    pub retry: Retry,
    pub counters: Counters,
    pub waiters: WaitersView,
    pub failures: FailuresView,
    pub selection: SelectionView,
    pub observed: ObservedView,
    pub caps: CapsView,
    pub plans: PlansView,
}

impl View for RuntimeActor {
    type V = Model;

    open spec fn view(&self) -> Model {
        Model {
            outbox: seq_view(self.outbox@),
            issues: self.health_issues@,
            configuration: self.configuration@,
            gates: self.gates,
            work: self.work,
            retry: self.retry,
            counters: self.counters,
            waiters: self.waiters@,
            failures: self.failures@,
            selection: self.selection@,
            observed: self.observed@,
            caps: self.caps@,
            plans: self.plans@,
        }
    }
}

impl Value for FrequencyLimits {
    fn same_value(&self, other: &FrequencyLimits) -> (r: bool) {
        *self == *other
    }

    fn copy_value(&self) -> (out: FrequencyLimits) {
        *self
    }
}

impl Value for SystemdUnitProperties {
    fn same_value(&self, other: &SystemdUnitProperties) -> (r: bool) {
        self.cpu_weight == other.cpu_weight && match (&self.allowed_cpus, &other.allowed_cpus) {
            (Some(a), Some(b)) => a.same_as(b),
            (None, None) => true,
            _ => false,
        }
    }

    fn copy_value(&self) -> (out: SystemdUnitProperties) {
        self.duplicate()
    }
}

impl Value for TaskPlan {
    fn same_value(&self, other: &TaskPlan) -> (r: bool) {
        self.identity == other.identity && self.scheduling.same_as(&other.scheduling)
    }

    fn copy_value(&self) -> (out: TaskPlan) {
        TaskPlan { identity: self.identity, scheduling: self.scheduling.duplicate() }
    }
}

impl Value for HealthIssue {
    fn same_value(&self, other: &HealthIssue) -> (r: bool) {
        self.code == other.code && self.severity == other.severity && self.component
            == other.component && self.message == other.message
    }

    fn copy_value(&self) -> (out: HealthIssue) {
        self.duplicate()
    }
}

/// A counter one step on, held at the end of its range.
pub open spec fn next(n: u64) -> u64 {
    if n == u64::MAX {
        n
    } else {
        (n + 1) as u64
    }
}

/// A point in time, held at the end of its range.
pub open spec fn later(now: u64, ms: u64) -> u64 {
    if now + ms > u64::MAX {
        u64::MAX
    } else {
        (now + ms) as u64
    }
}

/// The time from `then` to `now`, zero where `then` lies ahead.
pub open spec fn since(now: u64, then: u64) -> u64 {
    if now < then {
        0
    } else {
        (now - then) as u64
    }
}

/// The request for a policy evaluation with nothing to follow.
pub open spec fn evaluate() -> ActionView {
    ActionView::Evaluate { then_barriers: false }
}

impl Model {
    /// The state that asks for one more action.
    pub open spec fn asks(self, action: ActionView) -> Model {
        Model { outbox: self.outbox.push(action), ..self }
    }

    /// The state with a finding in place of an earlier one of its code.
    pub open spec fn with_issue(
        self,
        code: Seq<char>,
        severity: Seq<char>,
        component: Seq<char>,
        message: Seq<char>,
    ) -> Model {
        Model {
            issues: self.issues.insert(
                code,
                IssueView { code, severity, component, message },
            ),
            ..self
        }
    }

    /// The state without the finding of the given code.
    pub open spec fn without_issue(self, code: Seq<char>) -> Model {
        Model { issues: self.issues.remove(code), ..self }
    }
}

impl RuntimeActor {
    /// Asks for one more action.
    pub(crate) fn ask(&mut self, action: Action)
        ensures
            final(self)@ == old(self)@.asks(action@),
    {
        let ghost before = self.outbox@;
        self.outbox.push(action);
        assert(seq_view(self.outbox@) =~= seq_view(before).push(action@));
    }

    /// Records a finding in place of an earlier one of its code.
    pub(crate) fn report(&mut self, code: &str, severity: &str, component: &str, message: &str)
        ensures
            final(self)@ == old(self)@.with_issue(code@, severity@, component@, message@),
    {
        self.health_issues.insert(
            code.to_owned(),
            crate::model::issue(code, severity, component, message),
        );
    }

    /// Withdraws the finding of the given code.
    pub(crate) fn withdraw(&mut self, code: &str)
        ensures
            final(self)@ == old(self)@.without_issue(code@),
    {
        self.health_issues.remove(code);
    }

    /// Takes over the actions asked for so far.
    pub fn take_actions(&mut self) -> (out: Vec<Action>)
        ensures
            seq_view(out@) == old(self)@.outbox,
            final(self)@ == (Model { outbox: Seq::empty(), ..old(self)@ }),
    {
        let mut out: Vec<Action> = Vec::new();
        std::mem::swap(&mut out, &mut self.outbox);
        assert(seq_view(self.outbox@) =~= Seq::<ActionView>::empty());
        out
    }
}

} // verus!
