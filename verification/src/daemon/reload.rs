//! Configuration reload behind the mutation barrier.

use vstd::prelude::*;
use crate::api::{ReloadReport, ReloadReportView};
use crate::model::ThermalState;
use crate::table::prefixed;
use crate::text::copy_texts;
use super::config::{
    same_mapping, same_target_signature, settings_view, ConfigModel, ObserverSettings,
    ResolvedConfiguration,
};
use super::health::health_seeded;
use super::names::{ErrorView, RuntimeError};
use super::state::{
    evaluate, next, Action, ActionView, ActuatorReport, CandidateView, Counters, Gates, Model,
    PlansView, ReloadCandidate, ReportView, RuntimeActor, Work,
};
use super::thermal::{caps_updated, thermal_unavailable};

verus! {

/// Why a request has to wait for stored rules.
pub const APP_PERSISTENCE_IN_FLIGHT: &'static str =
    "an application-rule update is still being persisted";

/// Why a request has to wait for a reload.
pub const RELOAD_IN_FLIGHT: &'static str = "configuration reload is still being prepared";

/// Why a request has to wait for an identity lookup.
pub const PROCESS_IDENTITY_IN_FLIGHT: &'static str =
    "a workload identity lookup is still in progress";

/// Why the configuration cannot be changed at the moment, if so.
pub open spec fn config_conflict(m: Model) -> Option<ErrorView> {
    if m.work.app_persist_in_flight {
        Some(ErrorView::Conflict(APP_PERSISTENCE_IN_FLIGHT@))
    } else if m.work.reload_in_flight {
        Some(ErrorView::Conflict(RELOAD_IN_FLIGHT@))
    } else {
        None
    }
}

/// The state after a reload was asked for.
pub open spec fn reload_started(m: Model, ticket: u64) -> Model {
    match config_conflict(m) {
        Some(e) => m.asks(ActionView::AnswerReload { ticket, result: Err(e) }),
        None => Model { work: Work { reload_in_flight: true, ..m.work }, ..m }.asks(
            ActionView::LoadConfiguration { ticket },
        ),
    }
}

/// The state with a new configuration installed. Every sensor has to prove
/// itself again before the sensor-failure envelope is lifted.
#[verifier::opaque]
pub open spec fn config_installed(m: Model, configuration: ConfigModel, now: u64) -> Model {
    let generation = next(m.counters.observer_generation);
    let installed = Model {
        configuration,
        counters: Counters {
            config_generation: next(m.counters.config_generation),
            observer_generation: generation,
            ..m.counters
        },
        gates: Gates { scheduler_dirty: true, ..m.gates },
        ..m
    }.asks(
        ActionView::ReplaceSettings { settings: settings_view(configuration, generation) },
    ).asks(ActionView::ResetThermalGuards);
    caps_updated(thermal_unavailable(installed, now))
}

/// The state after a reload candidate was applied.
#[verifier::opaque]
pub open spec fn reload_applied(
    m: Model,
    configuration: ConfigModel,
    now: u64,
    report: ReportView,
) -> Model {
    let installed = config_installed(m, configuration, now);
    let counted = Model {
        counters: Counters {
            generation: next(installed.counters.generation),
            ..installed.counters
        },
        issues: installed.issues.remove_keys(prefixed("discovery.warning."@)),
        ..installed
    };
    health_seeded(counted, report).asks(evaluate())
}

/// The report of an applied reload.
pub open spec fn reload_report(config_generation: u64, warnings: Seq<Seq<char>>) -> ReloadReportView {
    ReloadReportView {
        config_generation,
        warnings,
        message: "configuration generation swapped under the sensor-failure envelope; awaiting a fresh thermal sample"@,
    }
}

/// The state after a reload candidate was applied and its caller answered.
#[verifier::opaque]
pub open spec fn reload_completed(
    m: Model,
    candidate: CandidateView,
    now: u64,
    report: ReportView,
) -> Model {
    let taken = Model { work: Work { reload_in_flight: false, ..m.work }, ..m };
    let applied = reload_applied(taken, candidate.configuration, now, report);
    let answered = applied.asks(
        ActionView::AnswerReload {
            ticket: candidate.ticket,
            result: Ok(
                reload_report(
                    next(m.counters.config_generation),
                    candidate.configuration.warnings,
                ),
            ),
        },
    );
    Model { gates: Gates { capabilities_changed_pending: true, ..answered.gates }, ..answered }
}

/// Whether nothing stands in the way of a reload.
pub open spec fn reload_unobstructed(m: Model) -> bool {
    !m.work.reconcile_in_flight && m.work.restore_in_flight is None && !m.work.restore_requested
}

/// The state after a reload failed.
pub open spec fn reload_refused(m: Model, ticket: u64, error: ErrorView) -> Model {
    Model { work: Work { reload_in_flight: false, ..m.work }, ..m }.asks(
        ActionView::AnswerReload { ticket, result: Err(error) },
    )
}

/// The refusal of a configuration that maps targets to other kernel files.
pub open spec fn mapping_changed() -> ErrorView {
    ErrorView::Validation(
        "device target mapping changed; safely restore and restart the daemon to adopt it"@,
    )
}

/// The state after the configuration files were read. A valid candidate is
/// applied at once, or waits for the work that is on its way.
pub open spec fn reload_received(
    m: Model,
    ticket: u64,
    result: Result<ConfigModel, ErrorView>,
    now: u64,
    report: ReportView,
) -> Model {
    match result {
        Err(e) => reload_refused(m, ticket, e),
        Ok(configuration) => {
            let candidate = CandidateView { ticket, configuration };
            if !same_mapping(configuration.targets, m.configuration.targets) {
                reload_refused(m, ticket, mapping_changed())
            } else if reload_unobstructed(m) {
                reload_completed(m, candidate, now, report)
            } else {
                Model { plans: PlansView { reload: Some(candidate), ..m.plans }, ..m }
            }
        },
    }
}

impl RuntimeActor {
    /// Why the configuration cannot be changed at the moment, if so.
    pub fn configuration_conflict(&self) -> (r: Option<RuntimeError>)
        ensures
            match r {
                Some(e) => config_conflict(self@) == Some(e@),
                None => config_conflict(self@) is None,
            },
    {
        if self.work.app_persist_in_flight {
            Some(RuntimeError::Conflict(APP_PERSISTENCE_IN_FLIGHT.to_owned()))
        } else if self.work.reload_in_flight {
            Some(RuntimeError::Conflict(RELOAD_IN_FLIGHT.to_owned()))
        } else {
            None
        }
    }

    /// Starts to read the configuration files.
    pub fn start_reload(&mut self, ticket: u64)
        ensures
            final(self)@ == reload_started(old(self)@, ticket),
    {
        match self.configuration_conflict() {
            Some(e) => {
                self.ask(Action::AnswerReload { ticket, result: Err(e) });
            },
            None => {
                self.work.reload_in_flight = true;
                self.ask(Action::LoadConfiguration { ticket });
            },
        }
    }

    /// Installs a new configuration.
    fn install_configuration(&mut self, configuration: ResolvedConfiguration, now: u64)
        ensures
            final(self)@ == config_installed(old(self)@, configuration@, now),
    {
        proof {
            reveal(config_installed);
        }
        let generation: u64 = self.counters.observer_generation.saturating_add(1);
        let settings = ObserverSettings::from_configuration(&configuration, generation);
        self.configuration = configuration;
        self.counters.config_generation = self.counters.config_generation.saturating_add(1);
        self.counters.observer_generation = generation;
        self.gates.scheduler_dirty = true;
        self.ask(Action::ReplaceSettings { settings });
        self.ask(Action::ResetThermalGuards);
        self.mark_all_thermal_unavailable(now);
        self.update_thermal_caps();
    }

    /// Applies a reload candidate.
    fn apply_reload_candidate(
        &mut self,
        configuration: ResolvedConfiguration,
        now: u64,
        report: &ActuatorReport,
    )
        ensures
            final(self)@ == reload_applied(old(self)@, configuration@, now, report@),
    {
        proof {
            reveal(reload_applied);
        }
        self.install_configuration(configuration, now);
        self.counters.generation = self.counters.generation.saturating_add(1);
        self.health_issues.remove_prefixed("discovery.warning.");
        self.seed_health(report);
        self.ask(Action::Evaluate { then_barriers: false });
    }

    /// Applies a reload candidate and answers its caller.
    pub(crate) fn complete_reload(
        &mut self,
        candidate: ReloadCandidate,
        now: u64,
        report: &ActuatorReport,
    )
        ensures
            final(self)@ == reload_completed(old(self)@, candidate@, now, report@),
    {
        proof {
            reveal(reload_completed);
        }
        let ReloadCandidate { ticket, configuration } = candidate;
        let warnings = copy_texts(&configuration.warnings);
        let config_generation: u64 = self.counters.config_generation.saturating_add(1);
        self.work.reload_in_flight = false;
        self.apply_reload_candidate(configuration, now, report);
        self.ask(
            Action::AnswerReload {
                ticket,
                result: Ok(
                    ReloadReport {
                        config_generation,
                        warnings,
                        message: "configuration generation swapped under the sensor-failure envelope; awaiting a fresh thermal sample".to_owned(),
                    },
                ),
            },
        );
        self.gates.capabilities_changed_pending = true;
    }

    /// Ends a reload without a new configuration.
    fn refuse_reload(&mut self, ticket: u64, error: RuntimeError)
        ensures
            final(self)@ == reload_refused(old(self)@, ticket, error@),
    {
        self.work.reload_in_flight = false;
        self.ask(Action::AnswerReload { ticket, result: Err(error) });
    }

    /// Takes over what was made of the configuration files.
    pub fn receive_reload(
        &mut self,
        ticket: u64,
        result: Result<ResolvedConfiguration, RuntimeError>,
        now: u64,
        report: &ActuatorReport,
    )
        ensures
            final(self)@ == reload_received(
                old(self)@,
                ticket,
                match result {
                    Ok(c) => Ok(c@),
                    Err(e) => Err(e@),
                },
                now,
                report@,
            ),
    {
        match result {
            Err(e) => {
                self.refuse_reload(ticket, e);
            },
            Ok(configuration) => {
                if !same_target_signature(&configuration, &self.configuration) {
                    self.refuse_reload(
                        ticket,
                        RuntimeError::Validation(
                            "device target mapping changed; safely restore and restart the daemon to adopt it".to_owned(),
                        ),
                    );
                    return;
                }
                let candidate = ReloadCandidate { ticket, configuration };
                if !self.work.reconcile_in_flight && self.work.restore_in_flight.is_none()
                    && !self.work.restore_requested {
                    self.complete_reload(candidate, now, report);
                } else {
                    self.plans.reload = Some(candidate);
                }
            },
        }
    }
}

/// A reload that is refused leaves the installed configuration and its
/// generation untouched.
pub proof fn refused_reload_changes_nothing(
    m: Model,
    ticket: u64,
    result: Result<ConfigModel, ErrorView>,
    now: u64,
    report: ReportView,
)
    requires
        match result {
            Err(_) => true,
            Ok(c) => !same_mapping(c.targets, m.configuration.targets),
        },
    ensures
        reload_received(m, ticket, result, now, report).configuration == m.configuration,
        reload_received(m, ticket, result, now, report).counters == m.counters,
{
}

/// Asking for caps leaves the configuration, the counters and the verdict as
/// they are.
pub proof fn caps_update_keeps(m: Model)
    ensures
        caps_updated(m).configuration == m.configuration,
        caps_updated(m).counters == m.counters,
        caps_updated(m).caps.thermal_state == m.caps.thermal_state,
        caps_updated(m).gates == m.gates,
        caps_updated(m).waiters == m.waiters,
        caps_updated(m).selection == m.selection,
        caps_updated(m).plans == m.plans,
        caps_updated(m).observed == m.observed,
        caps_updated(m).failures == m.failures,
        caps_updated(m).work.reconcile_in_flight == m.work.reconcile_in_flight,
        caps_updated(m).issues == m.issues || caps_updated(m).issues == m.issues.remove(
            "reconciler.frequency_backoff"@,
        ),
        m.outbox.is_prefix_of(caps_updated(m).outbox),
{
    reveal(caps_updated);
}

/// Seeding the health changes findings and gates only, and no gate but the two
/// about the actuator.
pub proof fn seeding_keeps(m: Model, report: ReportView)
    ensures
        health_seeded(m, report) == (Model {
            issues: health_seeded(m, report).issues,
            gates: Gates {
                actuator_read_only: health_seeded(m, report).gates.actuator_read_only,
                startup_recovery_pending: health_seeded(m, report).gates.startup_recovery_pending,
                ..m.gates
            },
            ..m
        }),
{
    let cleared = m.without_issue("scheduler.process_backend"@).without_issue(
        "scheduler.systemd_backend"@,
    );
    super::health::warnings_keep_the_rest(cleared, m.configuration.warnings.len());
}

/// A new configuration starts under the sensor-failure envelope and moves the
/// configuration, observer and control generations on by one.
pub proof fn reload_is_fail_closed(
    m: Model,
    candidate: CandidateView,
    now: u64,
    report: ReportView,
)
    ensures
        reload_completed(m, candidate, now, report).configuration == candidate.configuration,
        reload_completed(m, candidate, now, report).caps.thermal_state == ThermalState::Degraded,
        reload_completed(m, candidate, now, report).counters.config_generation == next(
            m.counters.config_generation,
        ),
        reload_completed(m, candidate, now, report).counters.observer_generation == next(
            m.counters.observer_generation,
        ),
        reload_completed(m, candidate, now, report).counters.generation == next(
            m.counters.generation,
        ),
{
    reveal(reload_completed);
    reveal(thermal_unavailable);
    reveal(config_installed);
    reveal(reload_applied);
    let taken = Model { work: Work { reload_in_flight: false, ..m.work }, ..m };
    let generation = next(m.counters.observer_generation);
    let installed = Model {
        configuration: candidate.configuration,
        counters: Counters {
            config_generation: next(m.counters.config_generation),
            observer_generation: generation,
            ..m.counters
        },
        gates: Gates { scheduler_dirty: true, ..m.gates },
        ..taken
    }.asks(
        ActionView::ReplaceSettings { settings: settings_view(candidate.configuration, generation) },
    ).asks(ActionView::ResetThermalGuards);
    caps_update_keeps(thermal_unavailable(installed, now));
    let done = config_installed(taken, candidate.configuration, now);
    let counted = Model {
        counters: Counters { generation: next(done.counters.generation), ..done.counters },
        issues: done.issues.remove_keys(prefixed("discovery.warning."@)),
        ..done
    };
    seeding_keeps(counted, report);
}

} // verus!
