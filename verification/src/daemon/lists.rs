//! The lists of the runtime state that are kept by key: the tasks of a plan and
//! the loads of the CPUs. A key stands in each of them once, and the keys ascend.

use vstd::prelude::*;
use crate::model::{ProcessIdentity, ThermalState};
use crate::platform::CpuCounters;
use crate::table::prefixed;
use super::barriers::{
    barriers_driven, restore_finished, restore_recorded, restore_result, resumed,
};
use super::config::settings_view;
use super::health::actuator_asked;
use super::observers::{cpu_loads, load_reduced, ticked, HeavyView};
use super::reconcile::{
    evaluated, evaluation_finished, failures_noted, generation_noted, outcome_recorded,
    outcome_taken, ownership_noted, reconcile_finished, reconcile_idle, worker_lost, OutcomeView,
};
use super::reload::{
    caps_update_keeps, config_installed, reload_applied, reload_completed, seeding_keeps,
};
use super::state::{
    next, ActionView, CandidateView, CapsView, Counters, CpuLoadSample, Gates, Model, PlanView, PlansView,
    ReportView, SnapshotView, TaskView, Work,
};
use super::thermal::{giving_up_keeps_the_rest, thermal_noted, thermal_unavailable};

verus! {

/// The order of process identities: by number, then start time, then user.
pub open spec fn identity_before(a: ProcessIdentity, b: ProcessIdentity) -> bool {
    a.pid < b.pid || (a.pid == b.pid && (a.start_time_ticks < b.start_time_ticks || (
    a.start_time_ticks == b.start_time_ticks && a.uid < b.uid)))
}

/// Whether each task stands once, in the order of their identities.
pub open spec fn tasks_in_order(tasks: Seq<TaskView>) -> bool {
    forall|i: int, j: int|
        0 <= i < j < tasks.len() ==> identity_before(tasks[i].identity, tasks[j].identity)
}

/// Whether each CPU stands once, in ascending order.
pub open spec fn loads_in_order(loads: Seq<CpuLoadSample>) -> bool {
    forall|i: int, j: int| 0 <= i < j < loads.len() ==> loads[i].cpu < loads[j].cpu
}

/// Whether each CPU of a snapshot stands once, in ascending order.
pub open spec fn counters_in_order(cpus: Seq<CpuCounters>) -> bool {
    forall|i: int, j: int| 0 <= i < j < cpus.len() ==> cpus[i].cpu < cpus[j].cpu
}

/// Whether the lists of the state are in order.
pub open spec fn lists_in_order(m: Model) -> bool {
    &&& m.plans.desired is Some ==> tasks_in_order(m.plans.desired->0.tasks)
    &&& tasks_in_order(m.plans.applied.tasks)
    &&& loads_in_order(m.observed.cpu_loads)
}

/// Whether two states have the same lists.
spec fn same_lists(a: Model, b: Model) -> bool {
    &&& a.plans.desired == b.plans.desired
    &&& a.plans.applied == b.plans.applied
    &&& a.observed.cpu_loads == b.observed.cpu_loads
}

/// The loads follow the order of the snapshot.
proof fn loads_follow_counters(current: Seq<CpuCounters>, previous: Seq<CpuCounters>)
    requires
        counters_in_order(current),
    ensures
        loads_in_order(cpu_loads(current, previous)),
        cpu_loads(current, previous).len() > 0 ==> current.len() > 0
            && cpu_loads(current, previous).last().cpu <= current.last().cpu,
    decreases current.len(),
{
    if current.len() > 0 {
        let rest = current.drop_last();
        loads_follow_counters(rest, previous);
        let before = cpu_loads(rest, previous);
        let all = cpu_loads(current, previous);
        if before.len() > 0 {
            assert(rest.last().cpu < current.last().cpu);
        }
        assert forall|i: int, j: int| 0 <= i < j < all.len() implies all[i].cpu < all[j].cpu by {
            if j == before.len() && i < before.len() - 1 {
                assert(before[i].cpu < before[before.len() - 1].cpu);
            }
        }
    }
}

proof fn reload_keeps_lists(m: Model, candidate: CandidateView, now: u64, report: ReportView)
    ensures
        same_lists(m, reload_completed(m, candidate, now, report)),
{
    reveal(config_installed);
    reveal(reload_applied);
    reveal(reload_completed);
    let taken = Model { work: Work { reload_in_flight: false, ..m.work }, ..m };
    let generation = next(m.counters.observer_generation);
    let installed = Model {
        configuration: candidate.configuration,
        counters: Counters {
            config_generation: next(m.counters.config_generation),
            observer_generation: generation,
            ..m.counters
        },
        gates: Gates { scheduler_dirty: true, ..m.gates },
        ..taken
    }.asks(
        ActionView::ReplaceSettings { settings: settings_view(candidate.configuration, generation) },
    ).asks(ActionView::ResetThermalGuards);
    giving_up_keeps_the_rest(installed, now);
    caps_update_keeps(thermal_unavailable(installed, now));
    let done = config_installed(taken, candidate.configuration, now);
    let counted = Model {
        counters: Counters { generation: next(done.counters.generation), ..done.counters },
        issues: done.issues.remove_keys(prefixed("discovery.warning."@)),
        ..done
    };
    seeding_keeps(counted, report);
}

proof fn waking_keeps_lists(m: Model, now: u64, then_barriers: bool)
    ensures
        same_lists(m, resumed(m, now, then_barriers)),
{
    reveal(resumed);
    let awake = Model { gates: Gates { suspended: false, ..m.gates }, ..m };
    giving_up_keeps_the_rest(awake, now);
    caps_update_keeps(thermal_unavailable(awake, now));
}

proof fn barriers_keep_lists(m: Model, now: u64, report: ReportView)
    ensures
        same_lists(m, barriers_driven(m, now, report)),
{
    if m.plans.reload is Some {
        let bare = Model { plans: PlansView { reload: None, ..m.plans }, ..m };
        reload_keeps_lists(bare, m.plans.reload->0, now, report);
    }
}

/// A snapshot in order gives loads in order.
pub proof fn load_keeps_order(
    m: Model,
    observation: Result<SnapshotView, Seq<char>>,
    heavy: HeavyView,
)
    requires
        lists_in_order(m),
        observation is Ok ==> counters_in_order(observation->Ok_0.cpus),
    ensures
        lists_in_order(load_reduced(m, observation, heavy)),
{
    if observation is Ok && m.observed.previous_cpu_times is Some {
        loads_follow_counters(
            observation->Ok_0.cpus,
            m.observed.previous_cpu_times->0.cpus,
        );
    }
}

proof fn tick_forgets_or_keeps(m: Model, changed: bool, verdict: ThermalState, now: u64)
    ensures
        ({
            let t = ticked(m, changed, verdict, now);
            &&& t.plans.desired == m.plans.desired
            &&& t.plans.applied == m.plans.applied
            &&& t.observed.cpu_loads == m.observed.cpu_loads || t.observed.cpu_loads.len() == 0
        }),
{
    caps_update_keeps(
        thermal_noted(Model { caps: CapsView { thermal_state: verdict, ..m.caps }, ..m }),
    );
}

/// Whether a state has the lists of another, or those of an outcome.
spec fn lists_from(m: Model, done: Result<OutcomeView, Seq<char>>, r: Model) -> bool {
    &&& r.observed.cpu_loads == m.observed.cpu_loads
    &&& r.plans.applied.tasks == m.plans.applied.tasks || (done is Ok && r.plans.applied.tasks
        == done->Ok_0.applied.tasks)
    &&& r.plans.desired is Some ==> m.plans.desired is Some && (r.plans.desired->0.tasks
        == m.plans.desired->0.tasks || (done is Ok && r.plans.desired->0.tasks
        == done->Ok_0.desired_tasks))
}

proof fn taking_over(m: Model, o: OutcomeView, was_pending: bool, now: u64)
    ensures
        lists_from(m, Ok(o), outcome_taken(m, o, was_pending, now)),
{
}

proof fn noting_keeps_lists(m: Model, o: OutcomeView, now: u64)
    ensures
        same_lists(m, ownership_noted(m, o)),
        same_lists(m, failures_noted(m, o, now)),
{
}

proof fn losing_keeps_lists(m: Model, e: Seq<char>, frequency: bool, scheduler: bool, now: u64)
    ensures
        same_lists(m, worker_lost(m, e, frequency, scheduler, now)),
{
}

proof fn asking_keeps_lists(m: Model, report: ReportView)
    ensures
        same_lists(m, actuator_asked(m, report)),
        generation_noted(m).observed == m.observed,
        generation_noted(m).plans.desired == m.plans.desired,
        generation_noted(m).plans.applied.tasks == m.plans.applied.tasks,
{
}

#[verifier::spinoff_prover]
proof fn outcome_takes_over(
    m: Model,
    done: Result<OutcomeView, Seq<char>>,
    now: u64,
    report: ReportView,
)
    ensures
        lists_from(m, done, outcome_recorded(m, done, now, report)),
{
    let idle = reconcile_idle(m);
    assert(same_lists(m, idle));
    let noted = match done {
        Ok(o) => failures_noted(
            ownership_noted(outcome_taken(idle, o, m.work.reconcile_pending, now), o),
            o,
            now,
        ),
        Err(e) => worker_lost(
            idle,
            e,
            m.work.inflight_frequency,
            m.work.inflight_scheduler,
            now,
        ),
    };
    assert(lists_from(m, done, noted)) by {
        match done {
            Ok(o) => {
                taking_over(idle, o, m.work.reconcile_pending, now);
                let taken = outcome_taken(idle, o, m.work.reconcile_pending, now);
                noting_keeps_lists(taken, o, now);
                noting_keeps_lists(ownership_noted(taken, o), o, now);
            },
            Err(e) => losing_keeps_lists(
                idle,
                e,
                m.work.inflight_frequency,
                m.work.inflight_scheduler,
                now,
            ),
        }
    }
    asking_keeps_lists(noted, report);
    asking_keeps_lists(actuator_asked(noted, report), report);
    reveal(outcome_recorded);
    assert(outcome_recorded(m, done, now, report) == generation_noted(
        actuator_asked(noted, report),
    ));
}

/// A tick forgets loads, or leaves them in order.
pub proof fn tick_keeps_order(m: Model, changed: bool, verdict: ThermalState, now: u64)
    requires
        lists_in_order(m),
    ensures
        lists_in_order(ticked(m, changed, verdict, now)),
{
    tick_forgets_or_keeps(m, changed, verdict, now);
    let t = ticked(m, changed, verdict, now);
}

/// A plan in order leaves the tasks in order.
pub proof fn evaluation_keeps_order(
    m: Model,
    plan: Result<PlanView, Seq<char>>,
    then_barriers: bool,
    now: u64,
    report: ReportView,
)
    requires
        lists_in_order(m),
        plan is Ok ==> tasks_in_order(plan->Ok_0.tasks),
    ensures
        lists_in_order(evaluation_finished(m, plan, then_barriers, now, report)),
{
    barriers_keep_lists(evaluated(m, plan, now), now, report);
}

/// An outcome in order leaves the tasks in order.
pub proof fn reconciliation_keeps_order(
    m: Model,
    done: Result<OutcomeView, Seq<char>>,
    now: u64,
    report: ReportView,
)
    requires
        lists_in_order(m),
        done is Ok ==> tasks_in_order(done->Ok_0.applied.tasks) && tasks_in_order(
            done->Ok_0.desired_tasks,
        ),
    ensures
        lists_in_order(reconcile_finished(m, done, now, report)),
{
    let recorded = outcome_recorded(m, done, now, report);
    outcome_takes_over(m, done, now, report);
    barriers_keep_lists(recorded, now, report);
}

/// A restoration empties the applied tasks, or leaves them in order.
pub proof fn restoration_keeps_order(
    m: Model,
    id: u64,
    outcome: Result<(), Seq<char>>,
    now: u64,
    report: ReportView,
)
    requires
        lists_in_order(m),
    ensures
        lists_in_order(restore_finished(m, id, outcome, now, report)),
{
    let result = restore_result(m.work.restore_in_flight, id, outcome);
    let recorded = restore_recorded(m, result, report);
    assert(lists_in_order(recorded));
    waking_keeps_lists(
        Model {
            work: Work {
                pending_resume: false,
                restored_while_suspended: false,
                ..recorded.work
            },
            ..recorded
        },
        now,
        true,
    );
    barriers_keep_lists(recorded, now, report);
}

} // verus!
