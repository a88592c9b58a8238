//! What stays true of the runtime state over any row of calls: closed control
//! stays closed, and a lost worker ends all mutation.

use vstd::prelude::*;
use crate::api::{AppRuleView, OverrideView, WorkloadRequestView};
use crate::model::{ProcessView, Scene, ThermalState};
use crate::platform::InputEvent;
use crate::table::prefixed;
use super::barriers::{
    barriers_driven, control_closed, restore_finished, restore_recorded, restore_result,
    resume_cancelled, resume_requested, resumed, sleep_requested, sleeper_added, stop_requested,
    stopper_added, suspended_state, told, RuntimeInput,
};
use super::commands::{
    closed_answer, commanded, mode_set, rule_removed, rule_set, rules_persisted, CommandView,
};
use super::config::{settings_view, ConfigModel};
use super::health::{
    actuator_asked, has_failed, health_seeded, health_state, warning_code,
    warnings_keep_the_rest, with_warnings,
};
use super::inputs::{hinted, input_reduced};
use super::names::ErrorView;
use super::observers::{
    frequencies_reduced, input_noted, load_reduced, logind_noted, ticked, BatchView, HeavyView,
};
use super::overrides::{mutation_error, overrides_cleared, overrides_set};
use super::publish::{announced, Changes};
use super::reconcile::{
    evaluated, evaluation_finished, hints_current, outcome_recorded, reconcile_finished,
    OutcomeView,
};
use super::reload::{
    caps_update_keeps, config_installed, reload_applied, reload_completed, reload_received,
    reload_started,
};
use super::retry::{frequency_cleared, frequency_failed, scheduler_cleared, scheduler_failed};
use super::rules::RuleView;
use super::state::{
    next, ActionView, CandidateView, CapsView, Counters, Gates, IdentityPurpose, Model,
    ObservedView, PlanView, PlansView, ReportView, SnapshotView, Work,
};
use super::thermal::{
    caps_updated, giving_up_keeps_the_rest, hottest, readings_aged, safety_finished,
    safety_requested, thermal_noted, thermal_reduced, thermal_unavailable, verdict_taken,
    with_readings, zone_readings, SampleView,
};
use super::workload::{check_started, clear_started, identity_finished, select_started};

verus! {

/// What moves the daemon between its states.
#[allow(inconsistent_fields)]
pub enum Transition {
    Command { command: CommandView, all: Seq<Seq<char>>, now: u64, report: ReportView },
    Told { input: RuntimeInput, now: u64, report: ReportView },
    DriveBarriers { now: u64, report: ReportView },
    RequestSleep { ticket: u64, now: u64, report: ReportView },
    RequestResume { ticket: u64, now: u64 },
    RequestStop { ticket: u64, now: u64, report: ReportView },
}

/// The state after such a call.
#[verifier::opaque]
pub open spec fn after_transition(m: Model, call: Transition) -> Model {
    match call {
        Transition::Command { command, all, now, report } => commanded(m, command, all, now, report),
        Transition::Told { input, now, report } => told(m, input, now, report),
        Transition::DriveBarriers { now, report } => barriers_driven(m, now, report),
        Transition::RequestSleep { ticket, now, report } => sleep_requested(m, ticket, now, report),
        Transition::RequestResume { ticket, now } => resume_requested(m, ticket, now),
        Transition::RequestStop { ticket, now, report } => stop_requested(m, ticket, now, report),
    }
}

/// What a client asks for.
#[allow(inconsistent_fields)]
pub enum Mutation {
    SetMode { value: Seq<char>, ticket: u64 },
    SetRule { rule: AppRuleView, ticket: u64 },
    RemoveRule { rule_id: Seq<char>, ticket: u64 },
    SetOverrides { requests: Seq<OverrideView>, ticket: u64, now: u64 },
    ClearOverrides { requested: Seq<Seq<char>>, all: Seq<Seq<char>>, ticket: u64 },
    StartReload { ticket: u64 },
    SetWorkload { request: WorkloadRequestView, caller_uid: u32, ticket: u64 },
    ClearWorkload { caller_uid: u32, ticket: u64 },
    CheckWorkload,
}

/// The state after such a call.
#[verifier::opaque]
pub open spec fn after_mutation(m: Model, call: Mutation) -> Model {
    match call {
        Mutation::SetMode { value, ticket } => mode_set(m, value, ticket),
        Mutation::SetRule { rule, ticket } => rule_set(m, rule, ticket),
        Mutation::RemoveRule { rule_id, ticket } => rule_removed(m, rule_id, ticket),
        Mutation::SetOverrides { requests, ticket, now } => overrides_set(m, requests, ticket, now),
        Mutation::ClearOverrides { requested, all, ticket } => overrides_cleared(
            m,
            requested,
            all,
            ticket,
        ),
        Mutation::StartReload { ticket } => reload_started(m, ticket),
        Mutation::SetWorkload { request, caller_uid, ticket } => select_started(
            m,
            request,
            caller_uid,
            ticket,
        ),
        Mutation::ClearWorkload { caller_uid, ticket } => clear_started(m, caller_uid, ticket),
        Mutation::CheckWorkload => check_started(m),
    }
}

/// What was seen.
#[allow(inconsistent_fields)]
pub enum Observation {
    Load { observation: Result<SnapshotView, Seq<char>>, heavy: HeavyView },
    Frequencies { observation: Result<BatchView, Seq<char>>, now: u64 },
    LogindHealth(Result<(), Seq<char>>),
    InputHealth(Result<(), Seq<char>>),
    Hint { scene: Scene, now: u64 },
    Input { event: InputEvent, now: u64 },
    AgeReadings { now: u64 },
    PrepareEvaluation { now: u64 },
}

/// The state after such a call.
#[verifier::opaque]
pub open spec fn after_observation(m: Model, call: Observation) -> Model {
    match call {
        Observation::Load { observation, heavy } => load_reduced(m, observation, heavy),
        Observation::Frequencies { observation, now } => frequencies_reduced(m, observation, now),
        Observation::LogindHealth(r) => logind_noted(m, r),
        Observation::InputHealth(r) => input_noted(m, r),
        Observation::Hint { scene, now } => hinted(m, scene, now, false),
        Observation::Input { event, now } => input_reduced(m, event, now),
        Observation::AgeReadings { now } => readings_aged(m, now),
        Observation::PrepareEvaluation { now } => hints_current(m, now),
    }
}

/// Temperatures, verdicts and caps.
#[allow(inconsistent_fields)]
pub enum Heat {
    Thermal { observation: Result<Seq<SampleView>, Seq<char>>, verdict: ThermalState, now: u64 },
    Tick { changed: bool, verdict: ThermalState, now: u64 },
    ThermalUnavailable { now: u64 },
    TakeVerdict(ThermalState),
    UpdateCaps,
    RequestCaps(Map<Seq<char>, u64>),
}

/// The state after such a call.
#[verifier::opaque]
pub open spec fn after_heat(m: Model, call: Heat) -> Model {
    match call {
        Heat::Thermal { observation, verdict, now } => thermal_reduced(
            m,
            observation,
            verdict,
            now,
        ),
        Heat::Tick { changed, verdict, now } => ticked(m, changed, verdict, now),
        Heat::ThermalUnavailable { now } => thermal_unavailable(m, now),
        Heat::TakeVerdict(verdict) => verdict_taken(m, verdict),
        Heat::UpdateCaps => caps_updated(m),
        Heat::RequestCaps(caps) => safety_requested(m, caps),
    }
}

/// The end of work that was on its way.
#[allow(inconsistent_fields)]
pub enum Completion {
    Restored { id: u64, outcome: Result<(), Seq<char>>, now: u64, report: ReportView },
    SafetyUpdated { id: u64, outcome: Result<(), Seq<char>>, report: ReportView },
    Identified {
        id: u64,
        purpose: IdentityPurpose,
        found: Result<ProcessView, Seq<char>>,
        now: u64,
    },
    Reloaded { ticket: u64, loaded: Result<ConfigModel, ErrorView>, now: u64, report: ReportView },
    Persisted {
        rules: Seq<RuleView>,
        changed_id: Seq<char>,
        message: Seq<char>,
        ticket: u64,
        stored: Result<(), ErrorView>,
    },
    Reconciled { done: Result<OutcomeView, Seq<char>>, now: u64, report: ReportView },
    Evaluated {
        plan: Result<PlanView, Seq<char>>,
        then_barriers: bool,
        now: u64,
        report: ReportView,
    },
}

/// The state after such a call.
#[verifier::opaque]
pub open spec fn after_completion(m: Model, call: Completion) -> Model {
    match call {
        Completion::Restored { id, outcome, now, report } => restore_finished(
            m,
            id,
            outcome,
            now,
            report,
        ),
        Completion::SafetyUpdated { id, outcome, report } => safety_finished(m, id, outcome, report),
        Completion::Identified { id, purpose, found, now } => identity_finished(
            m,
            id,
            purpose,
            found,
            now,
        ),
        Completion::Reloaded { ticket, loaded, now, report } => reload_received(
            m,
            ticket,
            loaded,
            now,
            report,
        ),
        Completion::Persisted { rules, changed_id, message, ticket, stored } => rules_persisted(
            m,
            rules,
            changed_id,
            message,
            ticket,
            stored,
        ),
        Completion::Reconciled { done, now, report } => reconcile_finished(m, done, now, report),
        Completion::Evaluated { plan, then_barriers, now, report } => evaluation_finished(
            m,
            plan,
            then_barriers,
            now,
            report,
        ),
    }
}

/// Health, retries and what is handed out.
#[allow(inconsistent_fields)]
pub enum Upkeep {
    TakeActions,
    Announce(Changes),
    RefreshActuator { report: ReportView },
    SeedHealth { report: ReportView },
    ClearFrequencyFailure,
    ClearSchedulerFailure,
    FrequencyFailure { message: Seq<char>, now: u64 },
    SchedulerFailure { message: Seq<char>, now: u64 },
}

/// The state after such a call.
#[verifier::opaque]
pub open spec fn after_upkeep(m: Model, call: Upkeep) -> Model {
    match call {
        Upkeep::TakeActions => Model { outbox: Seq::empty(), ..m },
        Upkeep::Announce(c) => announced(m, c),
        Upkeep::RefreshActuator { report } => actuator_asked(m, report),
        Upkeep::SeedHealth { report } => health_seeded(m, report),
        Upkeep::ClearFrequencyFailure => frequency_cleared(m),
        Upkeep::ClearSchedulerFailure => scheduler_cleared(m),
        Upkeep::FrequencyFailure { message, now } => frequency_failed(m, message, now),
        Upkeep::SchedulerFailure { message, now } => scheduler_failed(m, message, now),
    }
}

/// One call on the runtime state, with what it was given: each method that
/// changes the state is one of these.
pub enum Call {
    Transition(Transition),
    Mutation(Mutation),
    Observation(Observation),
    Heat(Heat),
    Completion(Completion),
    Upkeep(Upkeep),
}

/// The state after a call.
pub open spec fn called(m: Model, call: Call) -> Model {
    match call {
        Call::Transition(c) => after_transition(m, c),
        Call::Mutation(c) => after_mutation(m, c),
        Call::Observation(c) => after_observation(m, c),
        Call::Heat(c) => after_heat(m, c),
        Call::Completion(c) => after_completion(m, c),
        Call::Upkeep(c) => after_upkeep(m, c),
    }
}

/// The state after the first `n` calls.
pub open spec fn called_all(m: Model, calls: Seq<Call>, n: nat) -> Model
    decreases n,
{
    if n == 0 {
        m
    } else {
        called(called_all(m, calls, (n - 1) as nat), calls[n - 1])
    }
}

/// What no call takes back: closed control, and the end of mutation after a
/// worker was lost.
pub open spec fn lasts(a: Model, b: Model) -> bool {
    &&& !a.gates.accepting_control ==> !b.gates.accepting_control
    &&& a.failures.worker is Some ==> b.failures.worker is Some
    &&& a.failures.worker is Some && a.gates.actuator_read_only ==> b.gates.actuator_read_only
}

proof fn caps_last(m: Model)
    ensures
        lasts(m, caps_updated(m)),
{
    caps_update_keeps(m);
}

proof fn seeding_lasts(m: Model, report: ReportView)
    ensures
        lasts(m, health_seeded(m, report)),
{
    let cleared = m.without_issue("scheduler.process_backend"@).without_issue(
        "scheduler.systemd_backend"@,
    );
    warnings_keep_the_rest(cleared, m.configuration.warnings.len());
}

proof fn installing_lasts(m: Model, configuration: ConfigModel, now: u64)
    ensures
        lasts(m, config_installed(m, configuration, now)),
{
    reveal(config_installed);
    let generation = next(m.counters.observer_generation);
    let installed = Model {
        configuration,
        counters: Counters {
            config_generation: next(m.counters.config_generation),
            observer_generation: generation,
            ..m.counters
        },
        gates: Gates { scheduler_dirty: true, ..m.gates },
        ..m
    }.asks(
        ActionView::ReplaceSettings { settings: settings_view(configuration, generation) },
    ).asks(ActionView::ResetThermalGuards);
    giving_up_keeps_the_rest(installed, now);
    caps_update_keeps(thermal_unavailable(installed, now));
}

proof fn reload_lasts(m: Model, candidate: CandidateView, now: u64, report: ReportView)
    ensures
        lasts(m, reload_completed(m, candidate, now, report)),
{
    reveal(reload_completed);
    reveal(reload_applied);
    let taken = Model { work: Work { reload_in_flight: false, ..m.work }, ..m };
    installing_lasts(taken, candidate.configuration, now);
    let done = config_installed(taken, candidate.configuration, now);
    let counted = Model {
        counters: Counters { generation: next(done.counters.generation), ..done.counters },
        issues: done.issues.remove_keys(prefixed("discovery.warning."@)),
        ..done
    };
    seeding_lasts(counted, report);
}

proof fn barriers_last(m: Model, now: u64, report: ReportView)
    ensures
        lasts(m, barriers_driven(m, now, report)),
{
    if m.plans.reload is Some {
        let bare = Model { plans: PlansView { reload: None, ..m.plans }, ..m };
        reload_lasts(bare, m.plans.reload->0, now, report);
    }
}

proof fn sleep_lasts(m: Model, ticket: u64, now: u64, report: ReportView)
    ensures
        lasts(m, sleep_requested(m, ticket, now, report)),
{
    let awake = if m.work.pending_resume {
        resume_cancelled(m, "a newer sleep transition superseded the pending resume"@)
    } else {
        m
    };
    let waiting = sleeper_added(suspended_state(awake), ticket);
    barriers_last(
        Model { work: Work { restore_requested: true, ..waiting.work }, ..waiting },
        now,
        report,
    );
}

proof fn stop_lasts(m: Model, ticket: u64, now: u64, report: ReportView)
    ensures
        lasts(m, stop_requested(m, ticket, now, report)),
{
    let shut = resume_cancelled(
        control_closed(m),
        "daemon shutdown superseded the pending resume transition"@,
    );
    let suspended = if shut.gates.suspended {
        shut
    } else {
        suspended_state(shut)
    };
    let waiting = stopper_added(suspended, ticket);
    barriers_last(waiting, now, report);
    barriers_last(
        Model { work: Work { restore_requested: true, ..waiting.work }, ..waiting },
        now,
        report,
    );
}

proof fn waking_lasts(m: Model, now: u64, then_barriers: bool)
    ensures
        lasts(m, resumed(m, now, then_barriers)),
{
    reveal(resumed);
    let awake = Model { gates: Gates { suspended: false, ..m.gates }, ..m };
    giving_up_keeps_the_rest(awake, now);
    caps_update_keeps(thermal_unavailable(awake, now));
}

proof fn resuming_lasts(m: Model, ticket: u64, now: u64)
    ensures
        lasts(m, resume_requested(m, ticket, now)),
{
    waking_lasts(
        Model { work: Work { restored_while_suspended: false, ..m.work }, ..m },
        now,
        false,
    );
}

proof fn told_lasts(m: Model, input: RuntimeInput, now: u64, report: ReportView)
    ensures
        lasts(m, told(m, input, now, report)),
{
    if let RuntimeInput::PrepareForSleep { sleeping, ticket } = input {
        sleep_lasts(m, ticket, now, report);
        resuming_lasts(m, ticket, now);
    }
}

proof fn restore_lasts(
    m: Model,
    id: u64,
    outcome: Result<(), Seq<char>>,
    now: u64,
    report: ReportView,
)
    ensures
        lasts(m, restore_finished(m, id, outcome, now, report)),
{
    let result = restore_result(m.work.restore_in_flight, id, outcome);
    let recorded = restore_recorded(m, result, report);
    assert(lasts(m, recorded));
    waking_lasts(
        Model {
            work: Work {
                pending_resume: false,
                restored_while_suspended: false,
                ..recorded.work
            },
            ..recorded
        },
        now,
        true,
    );
    barriers_last(recorded, now, report);
}

proof fn reconcile_lasts(
    m: Model,
    done: Result<OutcomeView, Seq<char>>,
    now: u64,
    report: ReportView,
)
    ensures
        lasts(m, reconcile_finished(m, done, now, report)),
{
    let recorded = outcome_recorded(m, done, now, report);
    assert(lasts(m, recorded)) by {
        reveal(outcome_recorded);
    }
    barriers_last(recorded, now, report);
}

proof fn evaluation_lasts(
    m: Model,
    plan: Result<PlanView, Seq<char>>,
    then_barriers: bool,
    now: u64,
    report: ReportView,
)
    ensures
        lasts(m, evaluation_finished(m, plan, then_barriers, now, report)),
{
    barriers_last(evaluated(m, plan, now), now, report);
}

proof fn loading_lasts(
    m: Model,
    ticket: u64,
    loaded: Result<ConfigModel, ErrorView>,
    now: u64,
    report: ReportView,
)
    ensures
        lasts(m, reload_received(m, ticket, loaded, now, report)),
{
    if let Ok(configuration) = loaded {
        reload_lasts(m, CandidateView { ticket, configuration }, now, report);
    }
}

proof fn tick_lasts(m: Model, changed: bool, verdict: ThermalState, now: u64)
    ensures
        lasts(m, ticked(m, changed, verdict, now)),
{
    caps_update_keeps(
        thermal_noted(Model { caps: CapsView { thermal_state: verdict, ..m.caps }, ..m }),
    );
}

proof fn selecting_lasts(
    m: Model,
    id: u64,
    purpose: IdentityPurpose,
    found: Result<ProcessView, Seq<char>>,
    now: u64,
)
    ensures
        lasts(m, identity_finished(m, id, purpose, found, now)),
{
}

proof fn workload_lasts(m: Model, request: WorkloadRequestView, caller_uid: u32, ticket: u64)
    ensures
        lasts(m, select_started(m, request, caller_uid, ticket)),
{
}

proof fn clearing_lasts(m: Model, caller_uid: u32, ticket: u64)
    ensures
        lasts(m, clear_started(m, caller_uid, ticket)),
{
}

proof fn windows_last(
    m: Model,
    requests: Seq<OverrideView>,
    requested: Seq<Seq<char>>,
    all: Seq<Seq<char>>,
    ticket: u64,
    now: u64,
)
    ensures
        lasts(m, overrides_set(m, requests, ticket, now)),
        lasts(m, overrides_cleared(m, requested, all, ticket)),
{
}

proof fn rules_last(m: Model, rule: AppRuleView, ticket: u64)
    ensures
        lasts(m, rule_set(m, rule, ticket)),
{
}

proof fn removing_lasts(m: Model, rule_id: Seq<char>, ticket: u64)
    ensures
        lasts(m, rule_removed(m, rule_id, ticket)),
{
}

proof fn mode_lasts(m: Model, value: Seq<char>, ticket: u64)
    ensures
        lasts(m, mode_set(m, value, ticket)),
{
}

proof fn observing_lasts(
    m: Model,
    load: Result<SnapshotView, Seq<char>>,
    heavy: HeavyView,
    frequencies: Result<BatchView, Seq<char>>,
    now: u64,
)
    ensures
        lasts(m, load_reduced(m, load, heavy)),
        lasts(m, frequencies_reduced(m, frequencies, now)),
{
}

proof fn thermal_lasts(
    m: Model,
    observation: Result<Seq<SampleView>, Seq<char>>,
    verdict: ThermalState,
    now: u64,
)
    ensures
        lasts(m, thermal_reduced(m, observation, verdict, now)),
        lasts(m, thermal_unavailable(m, now)),
        lasts(m, verdict_taken(m, verdict)),
        lasts(m, readings_aged(m, now)),
{
    giving_up_keeps_the_rest(m, now);
    caps_update_keeps(
        thermal_noted(Model { caps: CapsView { thermal_state: verdict, ..m.caps }, ..m }),
    );
    reading_lasts(m, observation, verdict, now);
}

proof fn reading_lasts(
    m: Model,
    observation: Result<Seq<SampleView>, Seq<char>>,
    verdict: ThermalState,
    now: u64,
)
    ensures
        lasts(m, thermal_reduced(m, observation, verdict, now)),
{
    match observation {
        Err(message) => {
            let timed = Model {
                observed: ObservedView { timestamp: now, ..m.observed },
                ..m
            }.with_issue("observer.thermal"@, "critical"@, "thermal"@, message);
            giving_up_keeps_the_rest(timed, now);
            caps_update_keeps(thermal_unavailable(timed, now));
        },
        Ok(samples) => {
            let zones = m.configuration.zones;
            let readings = zone_readings(zones, samples, now);
            let seen = Model {
                observed: ObservedView {
                    timestamp: now,
                    thermal: with_readings(m.observed.thermal, zones, readings, zones.len()),
                    maximum_temperature: hottest(readings, zones.len()),
                    ..m.observed
                },
                caps: CapsView { thermal_state: verdict, ..m.caps },
                ..m
            }.without_issue("observer.thermal"@);
            caps_update_keeps(thermal_noted(seen));
        },
    }
}

proof fn safety_lasts(m: Model, id: u64, outcome: Result<(), Seq<char>>, report: ReportView)
    ensures
        lasts(m, safety_finished(m, id, outcome, report)),
{
}

#[verifier::rlimit(50)]
#[verifier::spinoff_prover]
proof fn command_lasts(
    m: Model,
    command: CommandView,
    all: Seq<Seq<char>>,
    now: u64,
    report: ReportView,
)
    ensures
        lasts(m, commanded(m, command, all, now, report)),
{
    match command {
        CommandView::SetMode { mode, ticket } => mode_lasts(m, mode, ticket),
        CommandView::SetActiveWorkload { request, caller_uid, ticket } => workload_lasts(
            m,
            request,
            caller_uid,
            ticket,
        ),
        CommandView::ClearActiveWorkload { caller_uid, ticket } => clearing_lasts(
            m,
            caller_uid,
            ticket,
        ),
        CommandView::SetFrequencyOverrides { overrides, ticket } => windows_last(
            m,
            overrides,
            all,
            all,
            ticket,
            now,
        ),
        CommandView::ClearFrequencyOverrides { target_ids, ticket } => windows_last(
            m,
            Seq::empty(),
            target_ids,
            all,
            ticket,
            now,
        ),
        CommandView::Reload { ticket } => {},
        CommandView::SetAppRule { rule, ticket } => rules_last(m, rule, ticket),
        CommandView::RemoveAppRule { id, ticket } => removing_lasts(m, id, ticket),
        CommandView::Activate { ticket } => {},
        CommandView::BeginShutdown { ticket } => {},
        CommandView::Stop { ticket } => stop_lasts(m, ticket, now, report),
    }
}

#[verifier::spinoff_prover]
proof fn transition_lasts(m: Model, call: Transition)
    ensures
        lasts(m, after_transition(m, call)),
{
    reveal(after_transition);
    match call {
        Transition::Command { command, all, now, report } => command_lasts(m, command, all, now, report),
        Transition::Told { input, now, report } => told_lasts(m, input, now, report),
        Transition::DriveBarriers { now, report } => barriers_last(m, now, report),
        Transition::RequestSleep { ticket, now, report } => sleep_lasts(m, ticket, now, report),
        Transition::RequestResume { ticket, now } => resuming_lasts(m, ticket, now),
        Transition::RequestStop { ticket, now, report } => stop_lasts(m, ticket, now, report),
    }
}

proof fn mutation_lasts(m: Model, call: Mutation)
    ensures
        lasts(m, after_mutation(m, call)),
{
    reveal(after_mutation);
    match call {
        Mutation::SetMode { value, ticket } => mode_lasts(m, value, ticket),
        Mutation::SetRule { rule, ticket } => rules_last(m, rule, ticket),
        Mutation::RemoveRule { rule_id, ticket } => removing_lasts(m, rule_id, ticket),
        Mutation::SetOverrides { requests, ticket, now } => windows_last(
            m,
            requests,
            Seq::empty(),
            Seq::empty(),
            ticket,
            now,
        ),
        Mutation::ClearOverrides { requested, all, ticket } => windows_last(
            m,
            Seq::empty(),
            requested,
            all,
            ticket,
            0,
        ),
        Mutation::StartReload { ticket } => {},
        Mutation::SetWorkload { request, caller_uid, ticket } => workload_lasts(
            m,
            request,
            caller_uid,
            ticket,
        ),
        Mutation::ClearWorkload { caller_uid, ticket } => clearing_lasts(m, caller_uid, ticket),
        Mutation::CheckWorkload => {},
    }
}

proof fn observation_lasts(m: Model, call: Observation)
    ensures
        lasts(m, after_observation(m, call)),
{
    reveal(after_observation);
    match call {
        Observation::Load { observation, heavy } => observing_lasts(
            m,
            observation,
            heavy,
            Err(Seq::empty()),
            0,
        ),
        Observation::Frequencies { observation, now } => observing_lasts(
            m,
            Err(Seq::empty()),
            HeavyView::Idle,
            observation,
            now,
        ),
        Observation::LogindHealth(r) => {},
        Observation::InputHealth(r) => {},
        Observation::Hint { scene, now } => {},
        Observation::Input { event, now } => {},
        Observation::AgeReadings { now } => thermal_lasts(m, Ok(Seq::empty()), ThermalState::Degraded, now),
        Observation::PrepareEvaluation { now } => {},
    }
}

proof fn heat_lasts(m: Model, call: Heat)
    ensures
        lasts(m, after_heat(m, call)),
{
    reveal(after_heat);
    match call {
        Heat::Thermal { observation, verdict, now } => thermal_lasts(m, observation, verdict, now),
        Heat::Tick { changed, verdict, now } => tick_lasts(m, changed, verdict, now),
        Heat::ThermalUnavailable { now } => thermal_lasts(
            m,
            Ok(Seq::empty()),
            ThermalState::Degraded,
            now,
        ),
        Heat::TakeVerdict(verdict) => thermal_lasts(m, Ok(Seq::empty()), verdict, 0),
        Heat::UpdateCaps => caps_last(m),
        Heat::RequestCaps(caps) => {},
    }
}

#[verifier::spinoff_prover]
proof fn completion_lasts(m: Model, call: Completion)
    ensures
        lasts(m, after_completion(m, call)),
{
    reveal(after_completion);
    match call {
        Completion::Restored { id, outcome, now, report } => restore_lasts(m, id, outcome, now, report),
        Completion::SafetyUpdated { id, outcome, report } => safety_lasts(m, id, outcome, report),
        Completion::Identified { id, purpose, found, now } => selecting_lasts(m, id, purpose, found, now),
        Completion::Reloaded { ticket, loaded, now, report } => loading_lasts(
            m,
            ticket,
            loaded,
            now,
            report,
        ),
        Completion::Persisted { rules, changed_id, message, ticket, stored } => {},
        Completion::Reconciled { done, now, report } => reconcile_lasts(m, done, now, report),
        Completion::Evaluated { plan, then_barriers, now, report } => evaluation_lasts(
            m,
            plan,
            then_barriers,
            now,
            report,
        ),
    }
}

proof fn upkeep_lasts(m: Model, call: Upkeep)
    ensures
        lasts(m, after_upkeep(m, call)),
{
    reveal(after_upkeep);
    match call {
        Upkeep::TakeActions => {},
        Upkeep::Announce(c) => {},
        Upkeep::RefreshActuator { report } => {},
        Upkeep::SeedHealth { report } => seeding_lasts(m, report),
        Upkeep::ClearFrequencyFailure => {},
        Upkeep::ClearSchedulerFailure => {},
        Upkeep::FrequencyFailure { message, now } => {},
        Upkeep::SchedulerFailure { message, now } => {},
    }
}

proof fn call_lasts(m: Model, call: Call)
    ensures
        lasts(m, called(m, call)),
{
    match call {
        Call::Transition(c) => transition_lasts(m, c),
        Call::Mutation(c) => mutation_lasts(m, c),
        Call::Observation(c) => observation_lasts(m, c),
        Call::Heat(c) => heat_lasts(m, c),
        Call::Completion(c) => completion_lasts(m, c),
        Call::Upkeep(c) => upkeep_lasts(m, c),
    }
}

proof fn calls_last(m: Model, calls: Seq<Call>, n: nat)
    requires
        n <= calls.len(),
    ensures
        lasts(m, called_all(m, calls, n)),
    decreases n,
{
    if n > 0 {
        calls_last(m, calls, (n - 1) as nat);
        call_lasts(called_all(m, calls, (n - 1) as nat), calls[n - 1]);
    }
}

/// Once shutdown has begun, every later mutation is refused and changes nothing,
/// whatever calls were made in between.
pub proof fn shutdown_refuses_every_later_mutation(
    m: Model,
    shutdown: u64,
    calls: Seq<Call>,
    command: CommandView,
    all: Seq<Seq<char>>,
    now: u64,
    report: ReportView,
)
    requires
        closed_answer(command) is Some,
    ensures
        ({
            let begun = commanded(
                m,
                CommandView::BeginShutdown { ticket: shutdown },
                all,
                now,
                report,
            );
            let at = called_all(begun, calls, calls.len());
            &&& !at.gates.accepting_control
            &&& commanded(at, command, all, now, report) == at.asks(closed_answer(command)->0)
        }),
{
    let begun = commanded(m, CommandView::BeginShutdown { ticket: shutdown }, all, now, report);
    calls_last(begun, calls, calls.len());
}

/// A lost worker ends all mutation: the reconciliation is over, the health has
/// failed, and no actuator is writable now or after any later calls, whatever
/// the actuator says of itself.
pub proof fn lost_worker_ends_mutation(
    m: Model,
    error: Seq<char>,
    now: u64,
    report: ReportView,
    calls: Seq<Call>,
)
    ensures
        ({
            let lost = reconcile_finished(m, Err(error), now, report);
            let at = called_all(lost, calls, calls.len());
            &&& lost.gates.actuator_read_only
            &&& !lost.work.reconcile_in_flight
            &&& lost.issues.dom().contains("reconciler.worker"@)
            &&& lost.issues["reconciler.worker"@].severity == "critical"@
            &&& health_state(lost) == "failed"@
            &&& at.gates.actuator_read_only
            &&& at.failures.worker is Some
            &&& mutation_error(at) is Some
            &&& mutation_error(at)->0 is Degraded
        }),
{
    let lost = reconcile_finished(m, Err(error), now, report);
    worker_is_reported(m, error, now, report);
    calls_last(lost, calls, calls.len());
}

/// Whether the loss of a worker is among the findings.
spec fn reported(m: Model) -> bool {
    &&& m.issues.dom().contains("reconciler.worker"@)
    &&& m.issues["reconciler.worker"@].severity == "critical"@
    &&& m.issues["reconciler.worker"@].component == "reconciler"@
}

proof fn other_codes()
    ensures
        "reconciler.worker"@ != "reconciler.frequency_backoff"@,
        "reconciler.worker"@ != "reconciler.scheduler_backoff"@,
        "reconciler.worker"@ != "actuator.degraded"@,
        "reconciler.worker"@ != "actuator.read_only"@,
        "reconciler.worker"@ != "scheduler.process_backend"@,
        "reconciler.worker"@ != "scheduler.systemd_backend"@,
        "reconciler.worker"@ != "thermal.degraded"@,
        !prefixed("discovery.warning."@).contains("reconciler.worker"@),
        forall|n: nat| "reconciler.worker"@ != #[trigger] warning_code(n),
{
    reveal_strlit("reconciler.worker");
    reveal_strlit("reconciler.frequency_backoff");
    reveal_strlit("reconciler.scheduler_backoff");
    reveal_strlit("actuator.degraded");
    reveal_strlit("actuator.read_only");
    reveal_strlit("scheduler.process_backend");
    reveal_strlit("scheduler.systemd_backend");
    reveal_strlit("thermal.degraded");
    reveal_strlit("discovery.warning.");
    assert("reconciler.worker"@.len() == 17);
    assert("reconciler.frequency_backoff"@.len() == 28);
    assert("reconciler.scheduler_backoff"@.len() == 28);
    assert("scheduler.process_backend"@.len() == 25);
    assert("scheduler.systemd_backend"@.len() == 25);
    assert("thermal.degraded"@.len() == 16);
    assert("reconciler.worker"@[0] == 'r');
    assert("actuator.degraded"@[0] == 'a');
    assert("actuator.read_only"@[0] == 'a');
    assert("discovery.warning."@[0] == 'd');
    assert forall|n: nat| "reconciler.worker"@ != #[trigger] warning_code(n) by {
        assert(warning_code(n)[0] == 'd');
    }
}

proof fn warnings_keep_reported(m: Model, n: nat)
    requires
        reported(m),
    ensures
        reported(with_warnings(m, n)),
    decreases n,
{
    if n > 0 {
        warnings_keep_reported(m, (n - 1) as nat);
        other_codes();
        assert(warning_code((n - 1) as nat) != "reconciler.worker"@);
    }
}

proof fn installing_keeps_reported(m: Model, configuration: ConfigModel, now: u64)
    requires
        reported(m),
    ensures
        reported(config_installed(m, configuration, now)),
        config_installed(m, configuration, now).work.reconcile_in_flight
            == m.work.reconcile_in_flight,
{
    reveal(config_installed);
    other_codes();
    let generation = next(m.counters.observer_generation);
    let installed = Model {
        configuration,
        counters: Counters {
            config_generation: next(m.counters.config_generation),
            observer_generation: generation,
            ..m.counters
        },
        gates: Gates { scheduler_dirty: true, ..m.gates },
        ..m
    }.asks(
        ActionView::ReplaceSettings { settings: settings_view(configuration, generation) },
    ).asks(ActionView::ResetThermalGuards);
    let given_up = thermal_unavailable(installed, now);
    giving_up_keeps_the_rest(installed, now);
    assert(given_up.issues.remove("thermal.degraded"@).dom().contains("reconciler.worker"@));
    assert(given_up.issues.remove("thermal.degraded"@)["reconciler.worker"@]
        == given_up.issues["reconciler.worker"@]);
    assert(reported(given_up));
    caps_update_keeps(given_up);
}

proof fn reload_keeps_reported(m: Model, candidate: CandidateView, now: u64, report: ReportView)
    requires
        reported(m),
    ensures
        reported(reload_completed(m, candidate, now, report)),
        reload_completed(m, candidate, now, report).work.reconcile_in_flight
            == m.work.reconcile_in_flight,
{
    reveal(reload_completed);
    reveal(reload_applied);
    other_codes();
    let taken = Model { work: Work { reload_in_flight: false, ..m.work }, ..m };
    let done = config_installed(taken, candidate.configuration, now);
    installing_keeps_reported(taken, candidate.configuration, now);
    let counted = Model {
        counters: Counters { generation: next(done.counters.generation), ..done.counters },
        issues: done.issues.remove_keys(prefixed("discovery.warning."@)),
        ..done
    };
    assert(reported(counted));
    let cleared = counted.without_issue("scheduler.process_backend"@).without_issue(
        "scheduler.systemd_backend"@,
    );
    assert(reported(cleared));
    warnings_keep_reported(cleared, counted.configuration.warnings.len());
    warnings_keep_the_rest(cleared, counted.configuration.warnings.len());
    assert(reported(health_seeded(counted, report)));
}

proof fn worker_is_reported(m: Model, error: Seq<char>, now: u64, report: ReportView)
    ensures
        ({
            let lost = reconcile_finished(m, Err(error), now, report);
            &&& reported(lost)
            &&& lost.gates.actuator_read_only
            &&& lost.failures.worker is Some
            &&& !lost.work.reconcile_in_flight
            &&& health_state(lost) == "failed"@
        }),
{
    let recorded = outcome_recorded(m, Err(error), now, report);
    let lost = reconcile_finished(m, Err(error), now, report);
    other_codes();
    assert(reported(recorded) && !recorded.work.reconcile_in_flight
        && recorded.gates.actuator_read_only && recorded.failures.worker is Some) by {
        reveal(outcome_recorded);
    }
    barriers_last(recorded, now, report);
    if recorded.plans.reload is Some {
        let bare = Model { plans: PlansView { reload: None, ..recorded.plans }, ..recorded };
        reload_keeps_reported(bare, recorded.plans.reload->0, now, report);
    }
    assert(reported(lost));
    assert(has_failed(lost.issues)) by {
        reveal_strlit("reconciler");
        reveal_strlit("thermal");
        assert("reconciler"@.len() != "thermal"@.len());
        assert(lost.issues.dom().contains("reconciler.worker"@));
    }
}

} // verus!
