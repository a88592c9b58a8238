//! Policy evaluation and reconciliation: which plan is wanted, when the system
//! may be brought in line with it, and what the outcome means.

use vstd::prelude::*;
use crate::model::{seq_view, FrequencyLimits, ModeSelection, ProfileId, ThermalState};
use crate::platform::{SystemdUnitProperties, UnitView};
use crate::table::Table;
use crate::text::{cat3, opt_text};
use super::barriers::{barred, barriers_driven};
use super::health::actuator_asked;
use super::hints::unexpired;
use super::retry::{frequency_cleared, frequency_failed, scheduler_cleared, scheduler_failed};
use super::state::{
    evaluate, Action, ActionView, ActuatorReport, AppliedState, AppliedView, DesiredPlan,
    FailuresView, Gates, Model, ObservedFrequency, ObservedView, PlanView, PlansView, ReportView,
    RuntimeActor, TaskPlan, TaskView, TimedOverride, Work,
};

verus! {

/// What the policy engine decides from, besides the observations and the
/// target policies of the configuration.
#[derive(Debug)]
pub struct PolicyInput {
    pub generation: u64,
    pub mode: ModeSelection,
    pub app_profile: Option<ProfileId>,
    pub manual_overrides: Table<FrequencyLimits>,
    pub administrator_caps: Table<u64>,
    pub thermal_caps: Table<u64>,
    pub thermal_degraded: bool,
}

/// The view of [`PolicyInput`].
pub struct PolicyInputView {
    pub generation: u64,
    pub mode: ModeSelection,
    pub app_profile: Option<ProfileId>,
    pub manual_overrides: Map<Seq<char>, FrequencyLimits>,
    pub administrator_caps: Map<Seq<char>, u64>,
    pub thermal_caps: Map<Seq<char>, u64>,
    pub thermal_degraded: bool,
}

impl View for PolicyInput {
    type V = PolicyInputView;

    open spec fn view(&self) -> PolicyInputView {
        PolicyInputView {
            generation: self.generation,
            mode: self.mode,
            app_profile: self.app_profile,
            manual_overrides: self.manual_overrides@,
            administrator_caps: self.administrator_caps@,
            thermal_caps: self.thermal_caps@,
            thermal_degraded: self.thermal_degraded,
        }
    }
}

/// The windows of the manual overrides.
pub open spec fn override_windows(overrides: Map<Seq<char>, TimedOverride>) -> Map<
    Seq<char>,
    FrequencyLimits,
> {
    Map::new(|k: Seq<char>| overrides.dom().contains(k), |k: Seq<char>| overrides[k].limits)
}

/// The profile of the workload: the one asked for with it, else the one that a
/// rule gives it.
pub open spec fn workload_profile(m: Model, matched: Option<ProfileId>) -> Option<ProfileId> {
    if m.selection.profile is Some {
        m.selection.profile
    } else if m.selection.workload is Some {
        matched
    } else {
        None
    }
}

/// What the policy engine decides from. `matched` is the profile that the
/// application rules give to the workload.
pub open spec fn policy_input(m: Model, matched: Option<ProfileId>) -> PolicyInputView {
    PolicyInputView {
        generation: m.counters.generation,
        mode: m.selection.mode,
        app_profile: workload_profile(m, matched),
        manual_overrides: override_windows(m.selection.overrides),
        administrator_caps: m.configuration.administrator_caps,
        thermal_caps: m.caps.thermal,
        thermal_degraded: m.caps.thermal_state == ThermalState::Degraded,
    }
}

/// The state with only the hints that still hold.
pub open spec fn hints_current(m: Model, now: u64) -> Model {
    Model {
        observed: ObservedView { hints: unexpired(m.observed.hints, now), ..m.observed },
        ..m
    }
}

/// Whether a target is wanted and is not known to be in force.
pub open spec fn target_differs(
    wanted: Map<Seq<char>, FrequencyLimits>,
    applied: Map<Seq<char>, FrequencyLimits>,
    observed: Map<Seq<char>, ObservedFrequency>,
    k: Seq<char>,
) -> bool {
    wanted.dom().contains(k) && !(applied.dom().contains(k) && applied[k] == wanted[k]
        && observed.dom().contains(k) && observed[k].limits == wanted[k])
}

/// Whether the frequencies in force differ from the wanted ones, or the kernel
/// shows something else.
pub open spec fn frequencies_differ(
    wanted: Map<Seq<char>, FrequencyLimits>,
    applied: Map<Seq<char>, FrequencyLimits>,
    observed: Map<Seq<char>, ObservedFrequency>,
) -> bool {
    ||| exists|k: Seq<char>| #[trigger] target_differs(wanted, applied, observed, k)
    ||| exists|k: Seq<char>| #[trigger] applied.dom().contains(k) && !wanted.dom().contains(k)
}

/// Whether the wanted plan calls for work on the frequencies.
pub open spec fn needs_frequencies(m: Model) -> bool {
    match m.plans.desired {
        Some(plan) => frequencies_differ(
            plan.frequencies,
            m.plans.applied.frequencies,
            m.observed.frequencies,
        ),
        None => false,
    }
}

/// Whether mutation has to wait or is not allowed.
pub open spec fn held_back(m: Model) -> bool {
    ||| m.gates.suspended
    ||| !m.gates.mutations_activated
    ||| !m.gates.accepting_control
    ||| m.work.restore_requested
    ||| m.work.restore_in_flight is Some
    ||| m.plans.reload is Some
    ||| m.work.safety_update_in_flight is Some
    ||| m.caps.pending is Some
}

/// The state after a reconciliation was started.
pub open spec fn reconcile_started(m: Model, frequencies: bool, scheduler: bool) -> Model {
    Model {
        work: Work {
            reconcile_in_flight: true,
            reconcile_pending: false,
            inflight_frequency: frequencies,
            inflight_scheduler: scheduler,
            ..m.work
        },
        ..m
    }.asks(ActionView::Reconcile { frequencies, scheduler })
}

/// The state after the system was brought in line with the plan as far as that
/// is allowed and due.
pub open spec fn reconciled(m: Model, now: u64) -> Model {
    let frequencies = needs_frequencies(m) && now >= m.retry.frequency_not_before;
    let scheduler = m.gates.scheduler_dirty && now >= m.retry.scheduler_not_before;
    if held_back(m) {
        m
    } else if m.gates.actuator is None {
        Model { gates: Gates { scheduler_dirty: false, ..m.gates }, ..m }
    } else if m.gates.actuator_read_only {
        m
    } else if m.work.reconcile_in_flight {
        Model { work: Work { reconcile_pending: true, ..m.work }, ..m }
    } else if !frequencies && !scheduler {
        m
    } else {
        reconcile_started(m, frequencies, scheduler)
    }
}

/// The state with a new plan. The tasks of the previous plan stay until a
/// reconciliation reports others.
pub open spec fn plan_installed(m: Model, plan: PlanView) -> Model {
    let clear = m.without_issue("policy.evaluate"@);
    let kept = match m.plans.desired {
        Some(previous) => PlanView { tasks: previous.tasks, ..plan },
        None => plan,
    };
    Model { plans: PlansView { desired: Some(kept), ..m.plans }, ..clear }
}

/// The state after the policy engine answered.
pub open spec fn evaluated(m: Model, result: Result<PlanView, Seq<char>>, now: u64) -> Model {
    match result {
        Err(e) => m.with_issue("policy.evaluate"@, "error"@, "policy"@, e),
        Ok(plan) => reconciled(plan_installed(m, plan), now),
    }
}

/// The state after the policy engine answered and, where asked for, the
/// barriers were driven.
pub open spec fn evaluation_finished(
    m: Model,
    result: Result<PlanView, Seq<char>>,
    then_barriers: bool,
    now: u64,
    report: ReportView,
) -> Model {
    let after = evaluated(m, result, now);
    if then_barriers {
        barriers_driven(after, now, report)
    } else {
        after
    }
}

/// What a reconciliation did.
#[derive(Debug)]
pub struct ReconcileOutcome {
    pub applied: AppliedState,
    pub applied_units: Table<SystemdUnitProperties>,
    pub desired_tasks: Vec<TaskPlan>,
    pub frequency_attempted: bool,
    pub frequency_error: Option<String>,
    pub scheduler_attempted: bool,
    pub scheduler_error: Option<String>,
    pub scheduler_warning: Option<String>,
}

/// The view of [`ReconcileOutcome`].
pub struct OutcomeView {
    pub applied: AppliedView,
    pub applied_units: Map<Seq<char>, UnitView>,
    pub desired_tasks: Seq<TaskView>,
    pub frequency_attempted: bool,
    pub frequency_error: Option<Seq<char>>,
    pub scheduler_attempted: bool,
    pub scheduler_error: Option<Seq<char>>,
    pub scheduler_warning: Option<Seq<char>>,
}

impl View for ReconcileOutcome {
    type V = OutcomeView;

    open spec fn view(&self) -> OutcomeView {
        OutcomeView {
            applied: self.applied@,
            applied_units: self.applied_units@,
            desired_tasks: seq_view(self.desired_tasks@),
            frequency_attempted: self.frequency_attempted,
            frequency_error: opt_text(self.frequency_error),
            scheduler_attempted: self.scheduler_attempted,
            scheduler_error: opt_text(self.scheduler_error),
            scheduler_warning: opt_text(self.scheduler_warning),
        }
    }
}

/// What the kernel is known to show after a verified change: the windows in
/// force. The instantaneous frequencies were not read.
pub open spec fn observed_after(
    observed: Map<Seq<char>, ObservedFrequency>,
    before: Map<Seq<char>, FrequencyLimits>,
    after: Map<Seq<char>, FrequencyLimits>,
) -> Map<Seq<char>, ObservedFrequency> {
    Map::new(
        |k: Seq<char>|
            after.dom().contains(k) || (observed.dom().contains(k) && !before.dom().contains(k)),
        |k: Seq<char>|
            if after.dom().contains(k) {
                ObservedFrequency { limits: after[k], current: None }
            } else {
                observed[k]
            },
    )
}

/// Whether the frequencies were changed and verified.
pub open spec fn frequency_succeeded(o: OutcomeView) -> bool {
    o.frequency_attempted && o.frequency_error is None
}

/// Whether the tasks were changed and verified.
pub open spec fn scheduler_succeeded(o: OutcomeView) -> bool {
    o.scheduler_attempted && o.scheduler_error is None
}

/// The state with the verified frequencies taken over.
pub open spec fn frequencies_taken(m: Model, before: AppliedView, o: OutcomeView, now: u64) -> Model {
    if frequency_succeeded(o) {
        Model {
            observed: ObservedView {
                frequencies: observed_after(
                    m.observed.frequencies,
                    before.frequencies,
                    o.applied.frequencies,
                ),
                last_frequency_success: Some(now),
                ..m.observed
            },
            ..m
        }.without_issue("observer.frequency.stale"@)
    } else {
        m
    }
}

/// The state with the verified tasks taken over. Where another request came in
/// meanwhile they are out of date and another round follows.
pub open spec fn tasks_taken(m: Model, o: OutcomeView, was_pending: bool) -> Model {
    if !was_pending && scheduler_succeeded(o) {
        Model {
            plans: PlansView {
                desired: match m.plans.desired {
                    Some(plan) => Some(PlanView { tasks: o.desired_tasks, ..plan }),
                    None => None,
                },
                ..m.plans
            },
            gates: Gates { scheduler_dirty: false, ..m.gates },
            ..m
        }
    } else {
        m
    }
}

/// The state with what is in force taken over. In a suspension it is about to
/// be undone and is not taken over.
pub open spec fn outcome_taken(m: Model, o: OutcomeView, was_pending: bool, now: u64) -> Model {
    if m.gates.suspended {
        m
    } else {
        let replaced = Model {
            plans: PlansView { applied: o.applied, units: o.applied_units, ..m.plans },
            ..m
        };
        tasks_taken(frequencies_taken(replaced, m.plans.applied, o, now), o, was_pending)
    }
}

/// The state with the finding about control-group ownership.
pub open spec fn ownership_noted(m: Model, o: OutcomeView) -> Model {
    if !o.scheduler_attempted {
        m
    } else {
        match o.scheduler_warning {
            Some(message) => m.with_issue(
                "scheduler.cgroup_ownership"@,
                "warning"@,
                "scheduler"@,
                message,
            ),
            None => m.without_issue("scheduler.cgroup_ownership"@),
        }
    }
}

/// The state with the failures of an outcome recorded, each in its own domain.
pub open spec fn failures_noted(m: Model, o: OutcomeView, now: u64) -> Model {
    let first = if !o.frequency_attempted {
        m
    } else {
        match o.frequency_error {
            Some(e) => frequency_failed(m, e, now),
            None => frequency_cleared(m),
        }
    };
    if !o.scheduler_attempted {
        first
    } else {
        match o.scheduler_error {
            Some(e) => scheduler_failed(first, e, now),
            None => scheduler_cleared(first),
        }
    }
}

/// The state after the worker of a reconciliation was lost: how far it came is
/// unknown, so all mutation ends for good.
pub open spec fn worker_lost(
    m: Model,
    error: Seq<char>,
    frequency: bool,
    scheduler: bool,
    now: u64,
) -> Model {
    let message = "reconciler worker stopped with unknown mutation progress: "@ + error
        + "; all further mutations are disabled"@;
    let broken = Model {
        failures: FailuresView { worker: Some(message), ..m.failures },
        gates: Gates { actuator_read_only: true, ..m.gates },
        ..m
    }.with_issue("reconciler.worker"@, "critical"@, "reconciler"@, message);
    let first = if frequency {
        frequency_failed(broken, error, now)
    } else {
        broken
    };
    if scheduler {
        scheduler_failed(first, error, now)
    } else {
        first
    }
}

/// The state in which no reconciliation is on its way.
pub open spec fn reconcile_idle(m: Model) -> Model {
    Model {
        work: Work {
            reconcile_in_flight: false,
            reconcile_pending: false,
            inflight_frequency: false,
            inflight_scheduler: false,
            ..m.work
        },
        ..m
    }
}

/// The state with the generation of the plan noted as in force, where all of
/// it is.
pub open spec fn generation_noted(m: Model) -> Model {
    if !m.gates.suspended && !m.gates.scheduler_dirty && m.plans.desired is Some
        && !needs_frequencies(m) {
        Model {
            plans: PlansView {
                applied: AppliedView {
                    generation: m.plans.desired->0.generation,
                    ..m.plans.applied
                },
                ..m.plans
            },
            ..m
        }
    } else {
        m
    }
}

/// The state with the outcome of a reconciliation recorded.
#[verifier::opaque]
pub open spec fn outcome_recorded(
    m: Model,
    result: Result<OutcomeView, Seq<char>>,
    now: u64,
    report: ReportView,
) -> Model {
    let idle = reconcile_idle(m);
    let noted = match result {
        Ok(o) => failures_noted(
            ownership_noted(outcome_taken(idle, o, m.work.reconcile_pending, now), o),
            o,
            now,
        ),
        Err(e) => worker_lost(
            idle,
            e,
            m.work.inflight_frequency,
            m.work.inflight_scheduler,
            now,
        ),
    };
    generation_noted(actuator_asked(noted, report))
}

/// The state after a reconciliation ended: barriers come first, and another
/// round follows where work is left.
pub open spec fn reconcile_finished(
    m: Model,
    result: Result<OutcomeView, Seq<char>>,
    now: u64,
    report: ReportView,
) -> Model {
    let recorded = outcome_recorded(m, result, now, report);
    if barred(recorded) {
        barriers_driven(recorded, now, report)
    } else if m.work.reconcile_pending || recorded.gates.scheduler_dirty || needs_frequencies(
        recorded,
    ) {
        recorded.asks(evaluate())
    } else {
        recorded
    }
}

/// Whether the frequencies in force differ from the wanted ones, or the kernel
/// shows something else.
pub fn frequency_needs_reconcile(
    wanted: &Table<FrequencyLimits>,
    applied: &Table<FrequencyLimits>,
    observed: &Table<ObservedFrequency>,
) -> (r: bool)
    ensures
        r == frequencies_differ(wanted@, applied@, observed@),
{
    let n: usize = wanted.len();
    let mut i: usize = 0;
    while i < n
        invariant
            i <= n,
            n == wanted.keys().len(),
            forall|k: Seq<char>| #[trigger] wanted@.dom().contains(k) <==> wanted.keys().contains(k),
            forall|j: int|
                0 <= j < i ==> !target_differs(
                    wanted@,
                    applied@,
                    observed@,
                    #[trigger] wanted.keys()[j],
                ),
        decreases n - i,
    {
        let key = wanted.key_at(i);
        let limits = *wanted.value_at(i);
        let same_applied = match applied.copied(key) {
            Some(a) => a == limits,
            None => false,
        };
        let same_observed = match observed.copied(key) {
            Some(o) => o.limits == limits,
            None => false,
        };
        if !same_applied || !same_observed {
            assert(target_differs(wanted@, applied@, observed@, key@));
            return true;
        }
        i = i + 1;
    }
    let m: usize = applied.len();
    let mut j: usize = 0;
    while j < m
        invariant
            j <= m,
            m == applied.keys().len(),
            forall|k: Seq<char>| #[trigger] applied@.dom().contains(k) <==> applied.keys().contains(k),
            forall|x: int| 0 <= x < j ==> wanted@.dom().contains(#[trigger] applied.keys()[x]),
        decreases m - j,
    {
        let key = applied.key_at(j);
        if !wanted.contains(key) {
            assert(applied@.dom().contains(key@) && !wanted@.dom().contains(key@));
            return true;
        }
        j = j + 1;
    }
    proof {
        assert forall|k: Seq<char>| !#[trigger] target_differs(wanted@, applied@, observed@, k) by {
            if wanted@.dom().contains(k) {
                let x = choose|x: int| 0 <= x < wanted.keys().len() && wanted.keys()[x] == k;
                assert(!target_differs(wanted@, applied@, observed@, wanted.keys()[x]));
            }
        }
        assert forall|k: Seq<char>| #[trigger] applied@.dom().contains(k) implies wanted@.dom().contains(
            k,
        ) by {
            let x = choose|x: int| 0 <= x < applied.keys().len() && applied.keys()[x] == k;
            assert(wanted@.dom().contains(applied.keys()[x]));
        }
    }
    false
}

/// Takes the verified windows over into the observations.
fn take_over(
    observed: &mut Table<ObservedFrequency>,
    before: &Table<FrequencyLimits>,
    after: &Table<FrequencyLimits>,
)
    ensures
        final(observed)@ == observed_after(old(observed)@, before@, after@),
{
    let ghost start = observed@;
    let n: usize = before.len();
    let mut i: usize = 0;
    while i < n
        invariant
            i <= n,
            n == before.keys().len(),
            start == old(observed)@,
            observed@.submap_of(start),
            forall|k: Seq<char>| #[trigger]
                start.dom().contains(k) && !observed@.dom().contains(k) ==> before.keys().contains(
                    k,
                ) && !after@.dom().contains(k),
            forall|j: int|
                0 <= j < i && !after@.dom().contains(#[trigger] before.keys()[j])
                    ==> !observed@.dom().contains(before.keys()[j]),
        decreases n - i,
    {
        let key = before.key_at(i);
        assert(before.keys().contains(key@));
        if !after.contains(key) {
            observed.remove(key);
        }
        i = i + 1;
    }
    assert forall|k: Seq<char>| #[trigger] observed@.dom().contains(k) implies !before@.dom().contains(k)
        || after@.dom().contains(k) by {
        if before@.dom().contains(k) {
            assert(before.keys().contains(k));
            let j = choose|j: int| 0 <= j < before.keys().len() && before.keys()[j] == k;
            assert(after@.dom().contains(before.keys()[j]));
        }
    }
    let ghost mid = observed@;
    let m: usize = after.len();
    let mut j: usize = 0;
    while j < m
        invariant
            j <= m,
            m == after.keys().len(),
            forall|k: Seq<char>| #[trigger] after@.dom().contains(k) <==> after.keys().contains(k),
            forall|k: Seq<char>| #[trigger]
                observed@.dom().contains(k) ==> mid.dom().contains(k) || after@.dom().contains(k),
            forall|k: Seq<char>| #[trigger]
                mid.dom().contains(k) ==> observed@.dom().contains(k),
            forall|k: Seq<char>| #[trigger]
                mid.dom().contains(k) && !after@.dom().contains(k) ==> observed@[k] == mid[k],
            forall|x: int|
                0 <= x < j ==> observed@.dom().contains(#[trigger] after.keys()[x])
                    && observed@[after.keys()[x]] == (ObservedFrequency {
                    limits: after@[after.keys()[x]],
                    current: None,
                }),
        decreases m - j,
    {
        let key = after.key_at(j);
        let limits = *after.value_at(j);
        observed.insert(key.to_owned(), ObservedFrequency { limits, current: None });
        j = j + 1;
    }
    proof {
        assert forall|k: Seq<char>| #[trigger] after@.dom().contains(k) implies observed@.dom().contains(
            k,
        ) && observed@[k] == (ObservedFrequency { limits: after@[k], current: None }) by {
            let x = choose|x: int| 0 <= x < after.keys().len() && after.keys()[x] == k;
            assert(observed@.dom().contains(after.keys()[x]));
        }
        assert(observed@ =~= observed_after(start, before@, after@));
    }
}

/// The windows of the manual overrides.
fn windows_of(overrides: &Table<TimedOverride>) -> (out: Table<FrequencyLimits>)
    ensures
        out@ == override_windows(overrides@),
{
    let mut out: Table<FrequencyLimits> = Table::new();
    let n: usize = overrides.len();
    let mut i: usize = 0;
    while i < n
        invariant
            i <= n,
            n == overrides.keys().len(),
            forall|k: Seq<char>| #[trigger]
                overrides@.dom().contains(k) <==> overrides.keys().contains(k),
            forall|k: Seq<char>| #[trigger] out@.dom().contains(k) ==> overrides@.dom().contains(k),
            forall|j: int|
                0 <= j < i ==> out@.dom().contains(#[trigger] overrides.keys()[j])
                    && out@[overrides.keys()[j]] == overrides@[overrides.keys()[j]].limits,
        decreases n - i,
    {
        out.insert(overrides.key_at(i).to_owned(), overrides.value_at(i).limits);
        i = i + 1;
    }
    proof {
        assert forall|k: Seq<char>| #[trigger] overrides@.dom().contains(k) implies out@.dom().contains(k)
            && out@[k] == overrides@[k].limits by {
            let j = choose|j: int| 0 <= j < overrides.keys().len() && overrides.keys()[j] == k;
            assert(out@.dom().contains(overrides.keys()[j]));
        }
        assert(out@ =~= override_windows(overrides@));
    }
    out
}

impl RuntimeActor {
    /// Drops the hints that no longer hold and puts together what the policy
    /// engine decides from.
    pub fn prepare_evaluation(&mut self, matched: Option<ProfileId>, now: u64) -> (input: PolicyInput)
        ensures
            final(self)@ == hints_current(old(self)@, now),
            input@ == policy_input(old(self)@, matched),
    {
        self.observed.hints.expire(now);
        let app_profile = if self.selection.profile.is_some() {
            self.selection.profile
        } else if self.selection.workload.is_some() {
            matched
        } else {
            None
        };
        PolicyInput {
            generation: self.counters.generation,
            mode: self.selection.mode,
            app_profile,
            manual_overrides: windows_of(&self.selection.overrides),
            administrator_caps: self.configuration.administrator_caps.duplicate(),
            thermal_caps: self.caps.thermal.duplicate(),
            thermal_degraded: self.caps.thermal_state == ThermalState::Degraded,
        }
    }

    /// Whether mutation has to wait or is not allowed.
    fn is_held_back(&self) -> (r: bool)
        ensures
            r == held_back(self@),
    {
        self.gates.suspended || !self.gates.mutations_activated || !self.gates.accepting_control
            || self.work.restore_requested || self.work.restore_in_flight.is_some()
            || self.plans.reload.is_some() || self.work.safety_update_in_flight.is_some()
            || self.caps.pending.is_some()
    }

    /// Whether the wanted plan calls for work on the frequencies.
    fn plan_needs_frequencies(&self) -> (r: bool)
        ensures
            r == needs_frequencies(self@),
    {
        match &self.plans.desired {
            Some(plan) => frequency_needs_reconcile(
                &plan.frequencies,
                &self.plans.applied.frequencies,
                &self.observed.frequencies,
            ),
            None => false,
        }
    }

    /// Starts a reconciliation.
    fn start_reconcile(&mut self, frequencies: bool, scheduler: bool)
        ensures
            final(self)@ == reconcile_started(old(self)@, frequencies, scheduler),
    {
        self.work.reconcile_in_flight = true;
        self.work.reconcile_pending = false;
        self.work.inflight_frequency = frequencies;
        self.work.inflight_scheduler = scheduler;
        self.ask(Action::Reconcile { frequencies, scheduler });
    }

    /// Brings the system in line with the plan as far as that is allowed and
    /// due.
    fn reconcile(&mut self, now: u64)
        ensures
            final(self)@ == reconciled(old(self)@, now),
    {
        if self.is_held_back() {
            return;
        }
        if self.gates.actuator.is_none() {
            self.gates.scheduler_dirty = false;
            return;
        }
        if self.gates.actuator_read_only {
            return;
        }
        if self.work.reconcile_in_flight {
            self.work.reconcile_pending = true;
            return;
        }
        let frequencies = self.plan_needs_frequencies() && now >= self.retry.frequency_not_before;
        let scheduler = self.gates.scheduler_dirty && now >= self.retry.scheduler_not_before;
        if !frequencies && !scheduler {
            return;
        }
        self.start_reconcile(frequencies, scheduler);
    }

    /// Installs a new plan.
    fn install_plan(&mut self, plan: DesiredPlan)
        ensures
            final(self)@ == plan_installed(old(self)@, plan@),
    {
        self.withdraw("policy.evaluate");
        let mut next_plan = plan;
        match self.plans.desired.take() {
            Some(previous) => {
                next_plan.tasks = previous.tasks;
            },
            None => {},
        }
        self.plans.desired = Some(next_plan);
    }

    /// Takes over the answer of the policy engine and brings the system in line
    /// with the plan as far as that is allowed and due.
    pub fn finish_evaluation(
        &mut self,
        result: Result<DesiredPlan, String>,
        then_barriers: bool,
        now: u64,
        report: &ActuatorReport,
    )
        ensures
            final(self)@ == evaluation_finished(
                old(self)@,
                match result {
                    Ok(plan) => Ok(plan@),
                    Err(e) => Err(e@),
                },
                then_barriers,
                now,
                report@,
            ),
    {
        match result {
            Ok(plan) => {
                self.install_plan(plan);
                self.reconcile(now);
            },
            Err(e) => {
                self.report("policy.evaluate", "error", "policy", e.as_str());
            },
        }
        if then_barriers {
            self.drive_mutation_barriers(now, report);
        }
    }

    /// Takes the verified frequencies over.
    fn take_frequencies(
        &mut self,
        before: &AppliedState,
        o: Ghost<OutcomeView>,
        succeeded: bool,
        now: u64,
    )
        requires
            old(self)@.plans.applied == o@.applied,
            succeeded == frequency_succeeded(o@),
        ensures
            final(self)@ == frequencies_taken(old(self)@, before@, o@, now),
    {
        if succeeded {
            take_over(
                &mut self.observed.frequencies,
                &before.frequencies,
                &self.plans.applied.frequencies,
            );
            self.observed.last_frequency_success = Some(now);
            self.withdraw("observer.frequency.stale");
        }
    }

    /// Takes the verified tasks over.
    fn take_tasks(&mut self, o: Ghost<OutcomeView>, tasks: Vec<TaskPlan>, current: bool, was_pending: bool)
        requires
            seq_view(tasks@) == o@.desired_tasks,
            current == (!was_pending && scheduler_succeeded(o@)),
        ensures
            final(self)@ == tasks_taken(old(self)@, o@, was_pending),
    {
        if current {
            match self.plans.desired.take() {
                Some(plan) => {
                    let mut next_plan = plan;
                    next_plan.tasks = tasks;
                    self.plans.desired = Some(next_plan);
                },
                None => {},
            }
            self.gates.scheduler_dirty = false;
        }
    }

    /// Notes the finding about control-group ownership.
    fn note_ownership(&mut self, attempted: bool, warning: &Option<String>, o: Ghost<OutcomeView>)
        requires
            attempted == o@.scheduler_attempted,
            opt_text(*warning) == o@.scheduler_warning,
        ensures
            final(self)@ == ownership_noted(old(self)@, o@),
    {
        if attempted {
            match warning {
                Some(message) => {
                    self.report(
                        "scheduler.cgroup_ownership",
                        "warning",
                        "scheduler",
                        message.as_str(),
                    );
                },
                None => {
                    self.withdraw("scheduler.cgroup_ownership");
                },
            }
        }
    }

    /// Notes the outcome in the frequency domain.
    fn note_frequency(&mut self, error: &Option<String>, now: u64)
        ensures
            final(self)@ == match opt_text(*error) {
                Some(e) => frequency_failed(old(self)@, e, now),
                None => frequency_cleared(old(self)@),
            },
    {
        match error {
            Some(e) => {
                self.record_frequency_failure(e.as_str(), now);
            },
            None => {
                self.clear_frequency_failure();
            },
        }
    }

    /// Notes the outcome in the scheduler domain.
    fn note_scheduler(&mut self, error: &Option<String>, now: u64)
        ensures
            final(self)@ == match opt_text(*error) {
                Some(e) => scheduler_failed(old(self)@, e, now),
                None => scheduler_cleared(old(self)@),
            },
    {
        match error {
            Some(e) => {
                self.record_scheduler_failure(e.as_str(), now);
            },
            None => {
                self.clear_scheduler_failure();
            },
        }
    }

    /// Takes over what is in force.
    fn take_outcome(
        &mut self,
        applied: AppliedState,
        units: Table<SystemdUnitProperties>,
        tasks: Vec<TaskPlan>,
        frequency_ok: bool,
        scheduler_ok: bool,
        was_pending: bool,
        now: u64,
        o: Ghost<OutcomeView>,
    )
        requires
            applied@ == o@.applied,
            units@ == o@.applied_units,
            seq_view(tasks@) == o@.desired_tasks,
            frequency_ok == frequency_succeeded(o@),
            scheduler_ok == scheduler_succeeded(o@),
        ensures
            final(self)@ == outcome_taken(old(self)@, o@, was_pending, now),
    {
        if self.gates.suspended {
            return;
        }
        let mut before = applied;
        std::mem::swap(&mut before, &mut self.plans.applied);
        self.plans.units = units;
        self.take_frequencies(&before, o, frequency_ok, now);
        self.take_tasks(o, tasks, !was_pending && scheduler_ok, was_pending);
    }

    /// Takes over a completed reconciliation.
    fn record_outcome(&mut self, outcome: ReconcileOutcome, was_pending: bool, now: u64)
        ensures
            final(self)@ == failures_noted(
                ownership_noted(outcome_taken(old(self)@, outcome@, was_pending, now), outcome@),
                outcome@,
                now,
            ),
    {
        let ghost o = outcome@;
        let ReconcileOutcome {
            applied,
            applied_units,
            desired_tasks,
            frequency_attempted,
            frequency_error,
            scheduler_attempted,
            scheduler_error,
            scheduler_warning,
        } = outcome;
        self.take_outcome(
            applied,
            applied_units,
            desired_tasks,
            frequency_attempted && frequency_error.is_none(),
            scheduler_attempted && scheduler_error.is_none(),
            was_pending,
            now,
            Ghost(o),
        );
        self.note_ownership(scheduler_attempted, &scheduler_warning, Ghost(o));
        if frequency_attempted {
            self.note_frequency(&frequency_error, now);
        }
        if scheduler_attempted {
            self.note_scheduler(&scheduler_error, now);
        }
    }

    /// Ends all mutation after the worker of a reconciliation was lost.
    fn lose_worker(&mut self, error: &str, frequency: bool, scheduler: bool, now: u64)
        ensures
            final(self)@ == worker_lost(old(self)@, error@, frequency, scheduler, now),
    {
        let message = cat3(
            "reconciler worker stopped with unknown mutation progress: ",
            error,
            "; all further mutations are disabled",
        );
        self.failures.worker = Some(message.clone());
        self.gates.actuator_read_only = true;
        self.report("reconciler.worker", "critical", "reconciler", message.as_str());
        if frequency {
            self.record_frequency_failure(error, now);
        }
        if scheduler {
            self.record_scheduler_failure(error, now);
        }
    }

    /// Notes the generation of the plan as in force, where all of it is.
    fn note_generation(&mut self)
        ensures
            final(self)@ == generation_noted(old(self)@),
    {
        if self.gates.suspended || self.gates.scheduler_dirty || self.plan_needs_frequencies() {
            return;
        }
        let generation: Option<u64> = match &self.plans.desired {
            Some(plan) => Some(plan.generation),
            None => None,
        };
        if let Some(g) = generation {
            self.plans.applied.generation = g;
        }
    }

    /// Records the outcome of a reconciliation.
    fn record_reconcile(
        &mut self,
        result: Result<ReconcileOutcome, String>,
        now: u64,
        report: &ActuatorReport,
    )
        ensures
            final(self)@ == outcome_recorded(
                old(self)@,
                match result {
                    Ok(o) => Ok(o@),
                    Err(e) => Err(e@),
                },
                now,
                report@,
            ),
    {
        proof {
            reveal(outcome_recorded);
        }
        let was_pending = self.work.reconcile_pending;
        let frequency = self.work.inflight_frequency;
        let scheduler = self.work.inflight_scheduler;
        self.work.reconcile_in_flight = false;
        self.work.reconcile_pending = false;
        self.work.inflight_frequency = false;
        self.work.inflight_scheduler = false;
        match result {
            Ok(outcome) => {
                self.record_outcome(outcome, was_pending, now);
            },
            Err(e) => {
                self.lose_worker(e.as_str(), frequency, scheduler, now);
            },
        }
        self.refresh_actuator_health(report);
        self.note_generation();
    }

    /// Takes over the end of a reconciliation.
    pub fn finish_reconcile(
        &mut self,
        result: Result<ReconcileOutcome, String>,
        now: u64,
        report: &ActuatorReport,
    )
        ensures
            final(self)@ == reconcile_finished(
                old(self)@,
                match result {
                    Ok(o) => Ok(o@),
                    Err(e) => Err(e@),
                },
                now,
                report@,
            ),
    {
        let was_pending = self.work.reconcile_pending;
        self.record_reconcile(result, now, report);
        if self.drive_mutation_barriers(now, report) {
            return;
        }
        if was_pending || self.gates.scheduler_dirty || self.plan_needs_frequencies() {
            self.ask(Action::Evaluate { then_barriers: false });
        }
    }
}

/// Nothing is mutated while the daemon is suspended, not yet active, closing,
/// restoring, reloading or waiting for the frequency fence, and nothing without
/// a writable actuator.
pub proof fn mutation_is_gated(m: Model, now: u64)
    requires
        held_back(m) || m.gates.actuator is None || m.gates.actuator_read_only,
    ensures
        reconciled(m, now).outbox == m.outbox,
        reconciled(m, now).work.reconcile_in_flight == m.work.reconcile_in_flight,
{
}

/// No second reconciliation starts while one is on its way; it is remembered.
pub proof fn reconciliations_are_serialized(m: Model, now: u64)
    requires
        m.work.reconcile_in_flight,
    ensures
        reconciled(m, now).outbox == m.outbox,
        !held_back(m) && m.gates.actuator is Some && !m.gates.actuator_read_only ==> reconciled(
            m,
            now,
        ).work.reconcile_pending,
{
}

/// A failure in one domain holds back that domain alone.
pub proof fn retries_are_separate(m: Model, now: u64)
    requires
        !held_back(m),
        m.gates.actuator is Some,
        !m.gates.actuator_read_only,
        !m.work.reconcile_in_flight,
        needs_frequencies(m),
        now >= m.retry.frequency_not_before,
    ensures
        reconciled(m, now).work.inflight_frequency,
        reconciled(m, now).outbox == m.outbox.push(
            ActionView::Reconcile {
                frequencies: true,
                scheduler: m.gates.scheduler_dirty && now >= m.retry.scheduler_not_before,
            },
        ),
{
}

/// A lost worker ends all mutation for good, whatever the actuator says of
/// itself.
pub proof fn lost_worker_is_final(m: Model, error: Seq<char>, now: u64, report: ReportView)
    ensures
        outcome_recorded(m, Err(error), now, report).gates.actuator_read_only,
        outcome_recorded(m, Err(error), now, report).failures.worker is Some,
{
    reveal(outcome_recorded);
}

/// After a verified change the observations agree with what is in force, so
/// that no further round is needed for its sake.
pub proof fn verified_change_settles(
    observed: Map<Seq<char>, ObservedFrequency>,
    before: Map<Seq<char>, FrequencyLimits>,
    after: Map<Seq<char>, FrequencyLimits>,
)
    ensures
        !frequencies_differ(after, after, observed_after(observed, before, after)),
{
}

} // verus!
