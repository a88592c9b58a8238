//! The start of the state owner, and the commands of its clients.

use vstd::prelude::*;
use crate::api::{
    AppRule, AppRuleView, FrequencyOverride, OverrideView, WorkloadRequest, WorkloadRequestView,
};
use crate::model::{seq_view, ModeSelection, ThermalState};
use crate::table::Table;
use crate::text::{cat2, texts};
use super::barriers::stop_requested;
use super::config::{ConfigModel, ResolvedConfiguration};
use super::contacts::ActiveTouchContacts;
use super::health::{actuator_health_snapshot, health_seeded};
use super::hints::HintSet;
use super::names::{
    mode_name, mode_text, named_mode, parse_mode, receipt, unknown_profile, ErrorView,
    RuntimeError,
};
use super::overrides::{overrides_cleared, overrides_set};
use super::reload::{
    config_conflict, reload_started, APP_PERSISTENCE_IN_FLIGHT, PROCESS_IDENTITY_IN_FLIGHT,
    RELOAD_IN_FLIGHT,
};
use super::rules::{
    api_rule_to_core, drop_rule, store_rule, stored_rule, with_rule, without_rule, AppRuleConfig,
    RuleView,
};
use super::state::{
    evaluate, next, nothing_applied, Action, ActionView, ActuatorFacts, ActuatorReport,
    AppliedState, Caps, CapsView, Counters, Failures, FailuresView, Gates, Model, Observed,
    ObservedView, Plans, PlansView, ReportView, Retry, RuntimeActor, Selection, SelectionView,
    Waiters, WaitersView, Work,
};
use super::thermal::caps_updated;
use super::workload::{
    answer, clear_started, control_in_flight, empty_receipt, one_text, receipt_view, select_started,
};

verus! {

/// A request of a client. Tickets name the caller that waits for an answer.
#[derive(Debug)]
pub enum Command {
    SetMode { mode: String, ticket: u64 },
    SetActiveWorkload { request: WorkloadRequest, caller_uid: u32, ticket: u64 },
    ClearActiveWorkload { caller_uid: u32, ticket: u64 },
    SetFrequencyOverrides { overrides: Vec<FrequencyOverride>, ticket: u64 },
    ClearFrequencyOverrides { target_ids: Vec<String>, ticket: u64 },
    Reload { ticket: u64 },
    SetAppRule { rule: AppRule, ticket: u64 },
    RemoveAppRule { id: String, ticket: u64 },
    Activate { ticket: u64 },
    BeginShutdown { ticket: u64 },
    Stop { ticket: u64 },
}

/// The view of [`Command`].
pub enum CommandView {
    SetMode { mode: Seq<char>, ticket: u64 },
    SetActiveWorkload { request: WorkloadRequestView, caller_uid: u32, ticket: u64 },
    ClearActiveWorkload { caller_uid: u32, ticket: u64 },
    SetFrequencyOverrides { overrides: Seq<OverrideView>, ticket: u64 },
    ClearFrequencyOverrides { target_ids: Seq<Seq<char>>, ticket: u64 },
    Reload { ticket: u64 },
    SetAppRule { rule: AppRuleView, ticket: u64 },
    RemoveAppRule { id: Seq<char>, ticket: u64 },
    Activate { ticket: u64 },
    BeginShutdown { ticket: u64 },
    Stop { ticket: u64 },
}

impl View for Command {
    type V = CommandView;

    open spec fn view(&self) -> CommandView {
        match *self {
            Command::SetMode { mode, ticket } => CommandView::SetMode { mode: mode@, ticket },
            Command::SetActiveWorkload { request, caller_uid, ticket } => CommandView::SetActiveWorkload {
                request: request@,
                caller_uid,
                ticket,
            },
            Command::ClearActiveWorkload { caller_uid, ticket } => CommandView::ClearActiveWorkload {
                caller_uid,
                ticket,
            },
            Command::SetFrequencyOverrides { overrides, ticket } => CommandView::SetFrequencyOverrides {
                overrides: seq_view(overrides@),
                ticket,
            },
            Command::ClearFrequencyOverrides { target_ids, ticket } => CommandView::ClearFrequencyOverrides {
                target_ids: texts(target_ids@),
                ticket,
            },
            Command::Reload { ticket } => CommandView::Reload { ticket },
            Command::SetAppRule { rule, ticket } => CommandView::SetAppRule { rule: rule@, ticket },
            Command::RemoveAppRule { id, ticket } => CommandView::RemoveAppRule { id: id@, ticket },
            Command::Activate { ticket } => CommandView::Activate { ticket },
            Command::BeginShutdown { ticket } => CommandView::BeginShutdown { ticket },
            Command::Stop { ticket } => CommandView::Stop { ticket },
        }
    }
}

/// The refusal of every mutation once shutdown has started.
pub open spec fn closed() -> ErrorView {
    ErrorView::Conflict("daemon shutdown has started; mutation requests are closed"@)
}

/// The state after a mode was asked for.
pub open spec fn mode_set(m: Model, value: Seq<char>, ticket: u64) -> Model {
    match named_mode(value) {
        None => m.asks(answer(ticket, Err(unknown_profile(value)))),
        Some(mode) => if m.selection.mode == mode {
            m.asks(
                answer(
                    ticket,
                    Ok(
                        receipt_view(
                            m.counters.generation,
                            Seq::empty(),
                            "mode was already selected"@,
                        ),
                    ),
                ),
            )
        } else {
            Model {
                selection: SelectionView { mode, ..m.selection },
                counters: Counters { generation: next(m.counters.generation), ..m.counters },
                ..m
            }.asks(evaluate()).asks(
                answer(
                    ticket,
                    Ok(
                        receipt_view(
                            next(m.counters.generation),
                            seq!["mode"@],
                            "mode changed to "@ + mode_text(mode),
                        ),
                    ),
                ),
            )
        },
    }
}

/// The state in which application rules are being stored.
pub open spec fn rules_persisting(
    m: Model,
    rules: Seq<RuleView>,
    changed_id: Seq<char>,
    message: Seq<char>,
    ticket: u64,
) -> Model {
    Model { work: Work { app_persist_in_flight: true, ..m.work }, ..m }.asks(
        ActionView::PersistRules { ticket, rules, changed_id, message },
    )
}

/// How a rule is named in receipts.
pub open spec fn rule_tag(id: Seq<char>) -> Seq<char> {
    "app-rule:"@ + id
}

/// The state after a rule was asked to be stored.
pub open spec fn rule_set(m: Model, rule: AppRuleView, ticket: u64) -> Model {
    match config_conflict(m) {
        Some(e) => m.asks(answer(ticket, Err(e))),
        None => match stored_rule(rule) {
            Err(e) => m.asks(answer(ticket, Err(e))),
            Ok(stored) => rules_persisting(
                m,
                with_rule(m.configuration.apps, stored),
                rule_tag(rule.id),
                "application rule stored"@,
                ticket,
            ),
        },
    }
}

/// Whether a rule with the given identifier is stored.
pub open spec fn has_rule(rules: Seq<RuleView>, id: Seq<char>) -> bool {
    exists|i: int| 0 <= i < rules.len() && (#[trigger] rules[i]).id == id
}

/// The state after a rule was asked to be removed.
pub open spec fn rule_removed(m: Model, id: Seq<char>, ticket: u64) -> Model {
    match config_conflict(m) {
        Some(e) => m.asks(answer(ticket, Err(e))),
        None => if !has_rule(m.configuration.apps, id) {
            m.asks(answer(ticket, Err(ErrorView::NotFound("application rule "@ + id))))
        } else {
            rules_persisting(
                m,
                without_rule(m.configuration.apps, id),
                rule_tag(id),
                "application rule removed"@,
                ticket,
            )
        },
    }
}

/// The state after the rules were stored, or not. Only stored rules count.
pub open spec fn rules_persisted(
    m: Model,
    rules: Seq<RuleView>,
    changed_id: Seq<char>,
    message: Seq<char>,
    ticket: u64,
    result: Result<(), ErrorView>,
) -> Model {
    let taken = Model { work: Work { app_persist_in_flight: false, ..m.work }, ..m };
    match result {
        Err(e) => taken.asks(answer(ticket, Err(e))),
        Ok(()) => Model {
            configuration: ConfigModel { apps: rules, ..m.configuration },
            counters: Counters {
                config_generation: next(m.counters.config_generation),
                generation: next(m.counters.generation),
                ..m.counters
            },
            ..taken
        }.asks(evaluate()).asks(
            answer(
                ticket,
                Ok(receipt_view(next(m.counters.generation), seq![changed_id], message)),
            ),
        ),
    }
}

/// The state after mutation was activated.
pub open spec fn activated(m: Model, ticket: u64) -> Model {
    if !m.gates.accepting_control {
        m.asks(ActionView::AnswerControl { ticket, result: Err(closed()) })
    } else {
        Model { gates: Gates { mutations_activated: true, ..m.gates }, ..m }.asks(
            evaluate(),
        ).asks(ActionView::AnswerControl { ticket, result: Ok(()) })
    }
}

/// The state after shutdown was announced: control is closed and nothing more
/// is reconciled.
pub open spec fn shutdown_begun(m: Model, ticket: u64) -> Model {
    Model {
        gates: Gates { accepting_control: false, ..m.gates },
        work: Work { reconcile_pending: false, ..m.work },
        ..m
    }.asks(ActionView::AnswerControl { ticket, result: Ok(()) })
}

/// Why the daemon cannot stop at the moment, if so.
pub open spec fn stop_conflict(m: Model) -> Option<ErrorView> {
    if config_conflict(m) is Some {
        config_conflict(m)
    } else if control_in_flight(m) {
        Some(ErrorView::Conflict(PROCESS_IDENTITY_IN_FLIGHT@))
    } else {
        None
    }
}

/// The state after a stop was asked for: at once, or a conflict while a caller
/// waits for something else.
pub open spec fn stop_asked(m: Model, ticket: u64, now: u64, report: ReportView) -> Model {
    match stop_conflict(m) {
        Some(e) => m.asks(ActionView::AnswerControl { ticket, result: Err(e) }),
        None => stop_requested(m, ticket, now, report),
    }
}

/// The state after a mutation of a client was taken up. `all` are the targets
/// of the active manual windows, in order.
pub open spec fn mutated(
    m: Model,
    command: CommandView,
    all: Seq<Seq<char>>,
    now: u64,
    report: ReportView,
) -> Model {
    match command {
        CommandView::SetMode { mode, ticket } => mode_set(m, mode, ticket),
        CommandView::SetActiveWorkload { request, caller_uid, ticket } => select_started(
            m,
            request,
            caller_uid,
            ticket,
        ),
        CommandView::ClearActiveWorkload { caller_uid, ticket } => clear_started(
            m,
            caller_uid,
            ticket,
        ),
        CommandView::SetFrequencyOverrides { overrides, ticket } => overrides_set(
            m,
            overrides,
            ticket,
            now,
        ),
        CommandView::ClearFrequencyOverrides { target_ids, ticket } => overrides_cleared(
            m,
            target_ids,
            all,
            ticket,
        ),
        CommandView::Reload { ticket } => reload_started(m, ticket),
        CommandView::SetAppRule { rule, ticket } => rule_set(m, rule, ticket),
        CommandView::RemoveAppRule { id, ticket } => rule_removed(m, id, ticket),
        CommandView::Activate { ticket } => activated(m, ticket),
        CommandView::BeginShutdown { ticket } => shutdown_begun(m, ticket),
        CommandView::Stop { ticket } => stop_asked(m, ticket, now, report),
    }
}

/// The answer to a mutation that is refused because shutdown has started; none
/// for the commands of shutdown itself.
pub open spec fn closed_answer(command: CommandView) -> Option<ActionView> {
    match command {
        CommandView::SetMode { ticket, .. } => Some(answer(ticket, Err(closed()))),
        CommandView::SetActiveWorkload { ticket, .. } => Some(answer(ticket, Err(closed()))),
        CommandView::ClearActiveWorkload { ticket, .. } => Some(answer(ticket, Err(closed()))),
        CommandView::SetFrequencyOverrides { ticket, .. } => Some(answer(ticket, Err(closed()))),
        CommandView::ClearFrequencyOverrides { ticket, .. } => Some(answer(ticket, Err(closed()))),
        CommandView::Reload { ticket } => Some(
            ActionView::AnswerReload { ticket, result: Err(closed()) },
        ),
        CommandView::SetAppRule { ticket, .. } => Some(answer(ticket, Err(closed()))),
        CommandView::RemoveAppRule { ticket, .. } => Some(answer(ticket, Err(closed()))),
        CommandView::Activate { ticket } => Some(
            ActionView::AnswerControl { ticket, result: Err(closed()) },
        ),
        CommandView::BeginShutdown { .. } => None,
        CommandView::Stop { .. } => None,
    }
}

/// The state after a command.
pub open spec fn commanded(
    m: Model,
    command: CommandView,
    all: Seq<Seq<char>>,
    now: u64,
    report: ReportView,
) -> Model {
    if !m.gates.accepting_control && closed_answer(command) is Some {
        m.asks(closed_answer(command)->0)
    } else {
        mutated(m, command, all, now, report)
    }
}

/// Whether a failed stop is worth another attempt a moment later: something
/// else was still in progress.
pub open spec fn retriable(error: ErrorView) -> bool {
    error == ErrorView::Conflict(APP_PERSISTENCE_IN_FLIGHT@) || error == ErrorView::Conflict(
        RELOAD_IN_FLIGHT@,
    ) || error == ErrorView::Conflict(PROCESS_IDENTITY_IN_FLIGHT@)
}

/// Whether a failed stop is worth another attempt.
pub fn stop_is_retriable(error: &RuntimeError) -> (r: bool)
    ensures
        r == retriable(error@),
{
    match error {
        RuntimeError::Conflict(message) => {
            let text = message.as_str();
            crate::text::same(text, APP_PERSISTENCE_IN_FLIGHT) || crate::text::same(
                text,
                RELOAD_IN_FLIGHT,
            ) || crate::text::same(text, PROCESS_IDENTITY_IN_FLIGHT)
        },
        _ => false,
    }
}

/// Nothing is on its way.
pub open spec fn no_work() -> Work {
    Work {
        reconcile_in_flight: false,
        reconcile_pending: false,
        inflight_frequency: false,
        inflight_scheduler: false,
        restore_in_flight: None,
        next_restore_id: 0,
        restore_requested: false,
        restored_while_suspended: false,
        pending_resume: false,
        identity_in_flight: None,
        next_identity_id: 0,
        safety_update_in_flight: None,
        next_safety_update_id: 0,
        app_persist_in_flight: false,
        reload_in_flight: false,
    }
}

/// Nothing was observed yet.
pub open spec fn nothing_observed() -> ObservedView {
    ObservedView {
        timestamp: 0,
        cpu_loads: Seq::empty(),
        frequencies: Map::empty(),
        thermal: Map::empty(),
        maximum_temperature: None,
        previous_cpu_times: None,
        last_load_success: None,
        last_frequency_success: None,
        hints: Map::empty(),
        contacts: Set::empty(),
    }
}

/// The state before anything is known of caps and health.
pub open spec fn blank(
    configuration: ConfigModel,
    actuator: Option<ActuatorFacts>,
    read_only: bool,
    recovery: bool,
) -> Model {
    Model {
        outbox: Seq::empty(),
        issues: Map::empty(),
        configuration,
        gates: Gates {
            actuator,
            actuator_read_only: read_only,
            startup_recovery_pending: recovery,
            suspended: false,
            mutations_activated: false,
            accepting_control: true,
            stop_requested: false,
            scheduler_dirty: false,
            capabilities_changed_pending: false,
        },
        work: no_work(),
        retry: Retry {
            frequency_failures: 0,
            frequency_not_before: 0,
            scheduler_failures: 0,
            scheduler_not_before: 0,
        },
        counters: Counters {
            generation: 0,
            state_revision: 0,
            config_generation: 1,
            observer_generation: 1,
            telemetry_sequence: 0,
            last_workload_check: 0,
            last_scheduler_scan: 0,
        },
        waiters: WaitersView { sleep: Seq::empty(), wake: Seq::empty(), stop: Seq::empty() },
        failures: FailuresView { restore: None, safety: None, worker: None },
        selection: SelectionView {
            mode: ModeSelection::Auto,
            workload: None,
            profile: None,
            overrides: Map::empty(),
        },
        observed: nothing_observed(),
        caps: CapsView {
            thermal_state: ThermalState::Degraded,
            thermal: Map::empty(),
            requested: Map::empty(),
            pending: None,
        },
        plans: PlansView {
            desired: None,
            applied: nothing_applied(),
            units: Map::empty(),
            reload: None,
        },
    }
}

/// The state at the start. It is fail-closed: until the first trusted sample
/// the sensor-failure envelope holds.
pub open spec fn started(
    configuration: ConfigModel,
    actuator: Option<ActuatorFacts>,
    report: ReportView,
) -> Model {
    let read_only = actuator is None || report.refusal is Some;
    let recovery = actuator is Some && match report.recovery_required {
        Some(required) => required,
        None => true,
    };
    health_seeded(caps_updated(blank(configuration, actuator, read_only, recovery)), report)
}

impl RuntimeActor {
    /// The state before anything is known of caps and health.
    fn blank(
        configuration: ResolvedConfiguration,
        actuator: Option<ActuatorFacts>,
        read_only: bool,
        recovery: bool,
    ) -> (actor: RuntimeActor)
        ensures
            actor@ == blank(configuration@, actuator, read_only, recovery),
    {
        let actor = RuntimeActor {
            outbox: Vec::new(),
            health_issues: Table::new(),
            configuration,
            gates: Gates {
                actuator,
                actuator_read_only: read_only,
                startup_recovery_pending: recovery,
                suspended: false,
                mutations_activated: false,
                accepting_control: true,
                stop_requested: false,
                scheduler_dirty: false,
                capabilities_changed_pending: false,
            },
            work: Work {
                reconcile_in_flight: false,
                reconcile_pending: false,
                inflight_frequency: false,
                inflight_scheduler: false,
                restore_in_flight: None,
                next_restore_id: 0,
                restore_requested: false,
                restored_while_suspended: false,
                pending_resume: false,
                identity_in_flight: None,
                next_identity_id: 0,
                safety_update_in_flight: None,
                next_safety_update_id: 0,
                app_persist_in_flight: false,
                reload_in_flight: false,
            },
            retry: Retry {
                frequency_failures: 0,
                frequency_not_before: 0,
                scheduler_failures: 0,
                scheduler_not_before: 0,
            },
            counters: Counters {
                generation: 0,
                state_revision: 0,
                config_generation: 1,
                observer_generation: 1,
                telemetry_sequence: 0,
                last_workload_check: 0,
                last_scheduler_scan: 0,
            },
            waiters: Waiters { sleep: Vec::new(), wake: Vec::new(), stop: Vec::new() },
            failures: Failures { restore: None, safety: None, worker: None },
            selection: Selection {
                mode: ModeSelection::Auto,
                workload: None,
                profile: None,
                overrides: Table::new(),
            },
            observed: Observed {
                timestamp: 0,
                cpu_loads: Vec::new(),
                frequencies: Table::new(),
                thermal: Table::new(),
                maximum_temperature: None,
                previous_cpu_times: None,
                last_load_success: None,
                last_frequency_success: None,
                hints: HintSet::new(),
                contacts: ActiveTouchContacts::default(),
            },
            caps: Caps {
                thermal_state: ThermalState::Degraded,
                thermal: Table::new(),
                requested: Table::new(),
                pending: None,
            },
            plans: Plans {
                desired: None,
                applied: AppliedState::none(),
                units: Table::new(),
                reload: None,
            },
        };
        assert(seq_view(actor.outbox@) =~= Seq::<ActionView>::empty());
        actor
    }

    /// The state at the start.
    pub fn new(
        configuration: ResolvedConfiguration,
        actuator: Option<ActuatorFacts>,
        report: &ActuatorReport,
    ) -> (actor: RuntimeActor)
        ensures
            actor@ == started(configuration@, actuator, report@),
    {
        let (read_only, recovery) = match actuator {
            Some(_) => actuator_health_snapshot(Some(report)),
            None => actuator_health_snapshot(None),
        };
        let mut actor = RuntimeActor::blank(configuration, actuator, read_only, recovery);
        actor.update_thermal_caps();
        actor.seed_health(report);
        actor
    }

    /// Whether mutations are still taken, else their refusal.
    pub fn require_accepting_control(&self) -> (r: Result<(), RuntimeError>)
        ensures
            match r {
                Ok(()) => self@.gates.accepting_control,
                Err(e) => !self@.gates.accepting_control && e@ == closed(),
            },
    {
        if self.gates.accepting_control {
            Ok(())
        } else {
            Err(
                RuntimeError::Conflict(
                    "daemon shutdown has started; mutation requests are closed".to_owned(),
                ),
            )
        }
    }

    /// Takes over the request for a mode.
    pub fn command_set_mode(&mut self, value: &str, ticket: u64)
        ensures
            final(self)@ == mode_set(old(self)@, value@, ticket),
    {
        match parse_mode(value) {
            Err(e) => {
                self.answer_mutation(ticket, Err(e));
            },
            Ok(mode) => {
                if self.selection.mode == mode {
                    let r = empty_receipt(self.counters.generation, "mode was already selected");
                    self.answer_mutation(ticket, Ok(r));
                    return;
                }
                self.selection.mode = mode;
                self.counters.generation = self.counters.generation.saturating_add(1);
                self.ask(Action::Evaluate { then_barriers: false });
                let message = cat2("mode changed to ", mode_name(mode));
                let r = receipt(
                    self.counters.generation,
                    one_text("mode".to_owned()),
                    message.as_str(),
                );
                self.answer_mutation(ticket, Ok(r));
            },
        }
    }

    /// Starts to store application rules.
    fn start_app_persistence(
        &mut self,
        rules: Vec<AppRuleConfig>,
        changed_id: String,
        message: &'static str,
        ticket: u64,
    )
        ensures
            final(self)@ == rules_persisting(
                old(self)@,
                seq_view(rules@),
                changed_id@,
                message@,
                ticket,
            ),
    {
        self.work.app_persist_in_flight = true;
        self.ask(Action::PersistRules { ticket, rules, changed_id, message });
    }

    /// Takes over the request to store a rule.
    pub fn start_set_app_rule(&mut self, rule: &AppRule, ticket: u64)
        ensures
            final(self)@ == rule_set(old(self)@, rule@, ticket),
    {
        match self.configuration_conflict() {
            Some(e) => {
                self.answer_mutation(ticket, Err(e));
            },
            None => match api_rule_to_core(rule) {
                Err(e) => {
                    self.answer_mutation(ticket, Err(e));
                },
                Ok(stored) => {
                    let rules = store_rule(&self.configuration.apps, stored);
                    let tag = cat2("app-rule:", rule.id.as_str());
                    self.start_app_persistence(rules, tag, "application rule stored", ticket);
                },
            },
        }
    }

    /// Takes over the request to remove a rule.
    pub fn start_remove_app_rule(&mut self, id: &str, ticket: u64)
        ensures
            final(self)@ == rule_removed(old(self)@, id@, ticket),
    {
        match self.configuration_conflict() {
            Some(e) => {
                self.answer_mutation(ticket, Err(e));
            },
            None => {
                let (rules, found) = drop_rule(&self.configuration.apps, id);
                proof {
                    let views = self@.configuration.apps;
                    if has_rule(views, id@) {
                        let i = choose|i: int| 0 <= i < views.len() && (#[trigger] views[i]).id == id@;
                        assert(self.configuration.apps@[i]@.id == id@);
                    }
                    if found {
                        let i = choose|i: int|
                            0 <= i < self.configuration.apps@.len()
                                && (#[trigger] self.configuration.apps@[i])@.id == id@;
                        assert(views[i].id == id@);
                    }
                }
                if !found {
                    self.answer_mutation(
                        ticket,
                        Err(RuntimeError::NotFound(cat2("application rule ", id))),
                    );
                    return;
                }
                let tag = cat2("app-rule:", id);
                self.start_app_persistence(rules, tag, "application rule removed", ticket);
            },
        }
    }

    /// Takes over whether the rules were stored.
    pub fn finish_app_persistence(
        &mut self,
        rules: Vec<AppRuleConfig>,
        changed_id: String,
        message: &str,
        ticket: u64,
        result: Result<(), RuntimeError>,
    )
        ensures
            final(self)@ == rules_persisted(
                old(self)@,
                seq_view(rules@),
                changed_id@,
                message@,
                ticket,
                match result {
                    Ok(()) => Ok(()),
                    Err(e) => Err(e@),
                },
            ),
    {
        self.work.app_persist_in_flight = false;
        match result {
            Err(e) => {
                self.answer_mutation(ticket, Err(e));
            },
            Ok(()) => {
                self.configuration.apps = rules;
                self.counters.config_generation = self.counters.config_generation.saturating_add(
                    1,
                );
                self.counters.generation = self.counters.generation.saturating_add(1);
                self.ask(Action::Evaluate { then_barriers: false });
                let r = receipt(self.counters.generation, one_text(changed_id), message);
                self.answer_mutation(ticket, Ok(r));
            },
        }
    }

    /// Takes over the activation of mutation.
    fn activate(&mut self, ticket: u64)
        ensures
            final(self)@ == activated(old(self)@, ticket),
    {
        match self.require_accepting_control() {
            Err(e) => {
                self.ask(Action::AnswerControl { ticket, result: Err(e) });
            },
            Ok(()) => {
                self.gates.mutations_activated = true;
                self.ask(Action::Evaluate { then_barriers: false });
                self.ask(Action::AnswerControl { ticket, result: Ok(()) });
            },
        }
    }

    /// Takes over the announcement of shutdown.
    fn begin_shutdown(&mut self, ticket: u64)
        ensures
            final(self)@ == shutdown_begun(old(self)@, ticket),
    {
        self.gates.accepting_control = false;
        self.work.reconcile_pending = false;
        self.ask(Action::AnswerControl { ticket, result: Ok(()) });
    }

    /// Takes over the request to stop, unless a caller waits for something
    /// else.
    fn command_stop(&mut self, ticket: u64, now: u64, report: &ActuatorReport)
        ensures
            final(self)@ == stop_asked(old(self)@, ticket, now, report@),
    {
        match self.configuration_conflict() {
            Some(e) => {
                self.ask(Action::AnswerControl { ticket, result: Err(e) });
            },
            None => {
                if self.process_control_request_in_flight() {
                    let e = RuntimeError::Conflict(PROCESS_IDENTITY_IN_FLIGHT.to_owned());
                    self.ask(Action::AnswerControl { ticket, result: Err(e) });
                    return;
                }
                self.request_stop(ticket, now, report);
            },
        }
    }

    /// The answer to a command that is refused because shutdown has started.
    fn refuse_closed(command: &Command) -> (r: Option<Action>)
        ensures
            match r {
                Some(a) => closed_answer(command@) == Some(a@),
                None => closed_answer(command@) is None,
            },
    {
        let e = RuntimeError::Conflict(
            "daemon shutdown has started; mutation requests are closed".to_owned(),
        );
        match command {
            Command::SetMode { ticket, .. } => Some(
                Action::AnswerMutation { ticket: *ticket, result: Err(e) },
            ),
            Command::SetActiveWorkload { ticket, .. } => Some(
                Action::AnswerMutation { ticket: *ticket, result: Err(e) },
            ),
            Command::ClearActiveWorkload { ticket, .. } => Some(
                Action::AnswerMutation { ticket: *ticket, result: Err(e) },
            ),
            Command::SetFrequencyOverrides { ticket, .. } => Some(
                Action::AnswerMutation { ticket: *ticket, result: Err(e) },
            ),
            Command::ClearFrequencyOverrides { ticket, .. } => Some(
                Action::AnswerMutation { ticket: *ticket, result: Err(e) },
            ),
            Command::Reload { ticket } => Some(
                Action::AnswerReload { ticket: *ticket, result: Err(e) },
            ),
            Command::SetAppRule { ticket, .. } => Some(
                Action::AnswerMutation { ticket: *ticket, result: Err(e) },
            ),
            Command::RemoveAppRule { ticket, .. } => Some(
                Action::AnswerMutation { ticket: *ticket, result: Err(e) },
            ),
            Command::Activate { ticket } => Some(
                Action::AnswerControl { ticket: *ticket, result: Err(e) },
            ),
            Command::BeginShutdown { .. } => None,
            Command::Stop { .. } => None,
        }
    }

    /// Takes up a command that is not refused outright.
    #[verifier::rlimit(40)]
    fn dispatch(&mut self, command: Command, now: u64, report: &ActuatorReport)
        ensures
            final(self)@ == mutated(
                old(self)@,
                command@,
                old(self).selection.overrides.keys(),
                now,
                report@,
            ),
    {
        match command {
            Command::SetMode { mode, ticket } => {
                self.command_set_mode(mode.as_str(), ticket);
            },
            Command::SetActiveWorkload { request, caller_uid, ticket } => {
                self.start_set_workload(&request, caller_uid, ticket);
            },
            Command::ClearActiveWorkload { caller_uid, ticket } => {
                self.start_clear_workload(caller_uid, ticket);
            },
            Command::SetFrequencyOverrides { overrides, ticket } => {
                self.command_set_overrides(&overrides, ticket, now);
            },
            Command::ClearFrequencyOverrides { target_ids, ticket } => {
                self.command_clear_overrides(&target_ids, ticket);
            },
            Command::Reload { ticket } => {
                self.start_reload(ticket);
            },
            Command::SetAppRule { rule, ticket } => {
                self.start_set_app_rule(&rule, ticket);
            },
            Command::RemoveAppRule { id, ticket } => {
                self.start_remove_app_rule(id.as_str(), ticket);
            },
            Command::Activate { ticket } => {
                self.activate(ticket);
            },
            Command::BeginShutdown { ticket } => {
                self.begin_shutdown(ticket);
            },
            Command::Stop { ticket } => {
                self.command_stop(ticket, now, report);
            },
        }
    }

    /// Takes over a command of a client.
    pub fn handle_command(&mut self, command: Command, now: u64, report: &ActuatorReport)
        ensures
            final(self)@ == commanded(
                old(self)@,
                command@,
                old(self).selection.overrides.keys(),
                now,
                report@,
            ),
    {
        if !self.gates.accepting_control {
            if let Some(refusal) = RuntimeActor::refuse_closed(&command) {
                self.ask(refusal);
                return;
            }
        }
        self.dispatch(command, now, report);
    }
}

/// Once shutdown has started, no mutation changes anything: it is only
/// answered.
pub proof fn closed_control_changes_nothing(
    m: Model,
    command: CommandView,
    all: Seq<Seq<char>>,
    now: u64,
    report: ReportView,
)
    requires
        !m.gates.accepting_control,
        closed_answer(command) is Some,
    ensures
        commanded(m, command, all, now, report) == m.asks(closed_answer(command)->0),
{
}

/// Nothing is mutated before activation: at the start, and until the first
/// command to activate.
pub proof fn start_is_inactive(
    configuration: ConfigModel,
    actuator: Option<ActuatorFacts>,
    report: ReportView,
)
    ensures
        !started(configuration, actuator, report).gates.mutations_activated,
        started(configuration, actuator, report).gates.accepting_control,
        started(configuration, actuator, report).caps.thermal_state == ThermalState::Degraded,
{
    let read_only = actuator is None || report.refusal is Some;
    let recovery = actuator is Some && match report.recovery_required {
        Some(required) => required,
        None => true,
    };
    let b = blank(configuration, actuator, read_only, recovery);
    super::reload::caps_update_keeps(b);
    super::reload::seeding_keeps(caps_updated(b), report);
}

/// Stored rules move the configuration generation but not that of the
/// observers, whose settings stay as they are.
pub proof fn rules_keep_observers(
    m: Model,
    rules: Seq<RuleView>,
    changed_id: Seq<char>,
    message: Seq<char>,
    ticket: u64,
    result: Result<(), ErrorView>,
)
    ensures
        rules_persisted(m, rules, changed_id, message, ticket, result).counters.observer_generation
            == m.counters.observer_generation,
        result is Ok ==> rules_persisted(
            m,
            rules,
            changed_id,
            message,
            ticket,
            result,
        ).counters.config_generation == next(m.counters.config_generation),
        result is Err ==> rules_persisted(
            m,
            rules,
            changed_id,
            message,
            ticket,
            result,
        ).configuration == m.configuration,
{
}

} // verus!
