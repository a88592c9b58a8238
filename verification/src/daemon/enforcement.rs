//! That whatever moves the thermal verdict or the configuration also moves the
//! caps that hold the hardware, and what starts and ticks set going.

use vstd::prelude::*;
use crate::model::{ModeSelection, ThermalState};
use crate::table::prefixed;
use super::barriers::resumed;
use super::commands::{blank, started};
use super::config::{settings_view, ConfigModel};
use super::guarantees::each_verdict_bounds_each_target;
use super::health::{health_seeded, warnings_keep_the_rest};
use super::observers::{tasks_scanned, tick_stages, ticked, workload_checked};
use super::outcomes::the_actuator_decides_about_writing;
use super::reload::{
    caps_update_keeps, config_installed, reload_applied, reload_completed, seeding_keeps,
};
use super::state::{
    next, ActionView, ActuatorFacts, CandidateView, CapsView, Counters, Gates, Model, ObservedView,
    ReportView, Work,
};
use super::thermal::{
    caps_updated, hottest, thermal_noted, thermal_reduced, thermal_unavailable, verdict_taken,
    with_readings, zone_readings, SampleView,
};

verus! {

/// Whether the caps that were asked for hold a target as its verdict demands: at
/// its critical cap, at its cap for failed sensors, or at its efficient cap.
pub open spec fn held(m: Model, k: Seq<char>) -> bool {
    let target = m.configuration.targets[k];
    let caps = m.caps.requested;
    &&& m.caps.thermal_state == ThermalState::Critical ==> caps.dom().contains(k) && caps[k]
        <= target.critical_cap
    &&& m.caps.thermal_state == ThermalState::Degraded ==> caps.dom().contains(k) && caps[k]
        <= target.sensor_failure_cap
    &&& (m.caps.thermal_state == ThermalState::Warning || m.caps.thermal_state
        == ThermalState::Throttled) && target.automatic_policy is Some ==> caps.dom().contains(k)
        && caps[k] <= target.automatic_policy->0.efficient_cap
    &&& m.configuration.administrator_caps.dom().contains(k) ==> caps.dom().contains(k) && caps[k]
        <= m.configuration.administrator_caps[k]
}

proof fn updated_caps_hold(m: Model, k: Seq<char>)
    requires
        m.failures.safety is None,
        m.configuration.targets.dom().contains(k),
    ensures
        held(caps_updated(m), k),
{
    each_verdict_bounds_each_target(m, k);
    caps_update_keeps(m);
}

/// Every verdict is enforced at once: one of a sample, of a tick, and the loss of
/// trust after a failed sample.
pub proof fn verdicts_are_enforced(
    m: Model,
    samples: Seq<SampleView>,
    message: Seq<char>,
    verdict: ThermalState,
    changed: bool,
    now: u64,
    k: Seq<char>,
)
    requires
        m.failures.safety is None,
        m.configuration.targets.dom().contains(k),
    ensures
        held(thermal_reduced(m, Ok(samples), verdict, now), k),
        held(thermal_reduced(m, Err(message), verdict, now), k),
        held(verdict_taken(m, verdict), k),
        held(ticked(m, changed, verdict, now), k),
{
    let noted = thermal_noted(Model { caps: CapsView { thermal_state: verdict, ..m.caps }, ..m });
    updated_caps_hold(noted, k);
    caps_update_keeps(noted);
    let s = tick_stages(m, verdict, now);
    assert(s.judged == caps_updated(noted));
    assert(s.windowed.caps == s.judged.caps && s.windowed.configuration == m.configuration);
    let checked = tasks_scanned(workload_checked(s.windowed, now), now);
    assert(checked.caps == s.judged.caps && checked.configuration == m.configuration);
    sampled_caps_hold(m, samples, message, verdict, now, k);
}

proof fn sampled_caps_hold(
    m: Model,
    samples: Seq<SampleView>,
    message: Seq<char>,
    verdict: ThermalState,
    now: u64,
    k: Seq<char>,
)
    requires
        m.failures.safety is None,
        m.configuration.targets.dom().contains(k),
    ensures
        held(thermal_reduced(m, Ok(samples), verdict, now), k),
        held(thermal_reduced(m, Err(message), verdict, now), k),
{
    let zones = m.configuration.zones;
    let readings = zone_readings(zones, samples, now);
    let seen = Model {
        observed: ObservedView {
            timestamp: now,
            thermal: with_readings(
                m.observed.thermal,
                zones,
                readings,
                zones.len(),
            ),
            maximum_temperature: hottest(readings, zones.len()),
            ..m.observed
        },
        caps: CapsView { thermal_state: verdict, ..m.caps },
        ..m
    }.without_issue("observer.thermal"@);
    updated_caps_hold(thermal_noted(seen), k);
    let timed = Model {
        observed: ObservedView { timestamp: now, ..m.observed },
        ..m
    }.with_issue("observer.thermal"@, "critical"@, "thermal"@, message);
    trust_is_lost(timed, now);
    updated_caps_hold(thermal_unavailable(timed, now), k);
}

proof fn trust_is_lost(m: Model, now: u64)
    ensures
        thermal_unavailable(m, now).configuration == m.configuration,
        thermal_unavailable(m, now).failures == m.failures,
        thermal_unavailable(m, now).caps.thermal_state == ThermalState::Degraded,
{
    reveal(thermal_unavailable);
}

/// A new configuration is put in force under its own caps for failed sensors, and
/// so is waking up.
pub proof fn starting_over_is_safe(
    m: Model,
    candidate: CandidateView,
    now: u64,
    report: ReportView,
    then_barriers: bool,
    k: Seq<char>,
)
    requires
        m.failures.safety is None,
    ensures
        candidate.configuration.targets.dom().contains(k) ==> {
            let after = reload_completed(m, candidate, now, report);
            &&& after.configuration.targets.dom().contains(k)
            &&& after.caps.requested.dom().contains(k)
            &&& after.caps.requested[k] <= candidate.configuration.targets[k].sensor_failure_cap
        },
        m.configuration.targets.dom().contains(k) ==> {
            let after = resumed(m, now, then_barriers);
            &&& after.caps.requested.dom().contains(k)
            &&& after.caps.requested[k] <= m.configuration.targets[k].sensor_failure_cap
        },
{
    reveal(reload_completed);
    reveal(reload_applied);
    reveal(config_installed);
    reveal(resumed);
    let awake = Model { gates: Gates { suspended: false, ..m.gates }, ..m };
    trust_is_lost(awake, now);
    if m.configuration.targets.dom().contains(k) {
        updated_caps_hold(thermal_unavailable(awake, now), k);
    }
    caps_update_keeps(thermal_unavailable(awake, now));
    let taken = Model { work: Work { reload_in_flight: false, ..m.work }, ..m };
    let generation = next(taken.counters.observer_generation);
    let installed = Model {
        configuration: candidate.configuration,
        counters: Counters {
            config_generation: next(taken.counters.config_generation),
            observer_generation: generation,
            ..taken.counters
        },
        gates: Gates { scheduler_dirty: true, ..taken.gates },
        ..taken
    }.asks(
        ActionView::ReplaceSettings {
            settings: settings_view(candidate.configuration, generation),
        },
    ).asks(ActionView::ResetThermalGuards);
    trust_is_lost(installed, now);
    let given_up = thermal_unavailable(installed, now);
    if candidate.configuration.targets.dom().contains(k) {
        updated_caps_hold(given_up, k);
    }
    caps_update_keeps(given_up);
    assert(config_installed(taken, candidate.configuration, now) == caps_updated(given_up));
    let capped = caps_updated(given_up);
    let counted = Model {
        counters: Counters {
            generation: next(capped.counters.generation),
            ..capped.counters
        },
        issues: capped.issues.remove_keys(prefixed("discovery.warning."@)),
        ..capped
    };
    seeding_keeps(counted, report);
}

/// The daemon starts in automatic mode, without a workload, windows or anything in
/// force, trusts no sensor, and has its caps for that asked for already.
pub proof fn the_start_is_safe(
    configuration: ConfigModel,
    actuator: Option<ActuatorFacts>,
    report: ReportView,
    k: Seq<char>,
)
    ensures
        ({
            let m = started(configuration, actuator, report);
            &&& m.configuration == configuration
            &&& m.selection.mode == ModeSelection::Auto
            &&& m.selection.workload is None
            &&& m.selection.profile is None
            &&& m.selection.overrides.dom() == Set::<Seq<char>>::empty()
            &&& m.plans.desired is None
            &&& m.plans.applied.frequencies.dom() == Set::<Seq<char>>::empty()
            &&& m.plans.applied.tasks.len() == 0
            &&& !m.gates.suspended
            &&& !m.gates.stop_requested
            &&& !m.gates.mutations_activated
            &&& m.gates.actuator == actuator
            &&& actuator is None ==> m.gates.actuator_read_only
            &&& actuator is Some ==> (m.gates.actuator_read_only <==> report.refusal is Some)
            &&& configuration.targets.dom().contains(k) ==> m.caps.requested.dom().contains(k)
                && m.caps.requested[k] <= configuration.targets[k].sensor_failure_cap
        }),
{
    let read_only = actuator is None || report.refusal is Some;
    let recovery = actuator is Some && match report.recovery_required {
        Some(required) => required,
        None => true,
    };
    let first = blank(configuration, actuator, read_only, recovery);
    if configuration.targets.dom().contains(k) {
        updated_caps_hold(first, k);
    }
    caps_update_keeps(first);
    seeding_keeps(caps_updated(first), report);
    the_actuator_decides_about_writing(caps_updated(first), report);
    seeded_gates_are_the_actuators(caps_updated(first), report);
}

proof fn seeded_gates_are_the_actuators(m: Model, report: ReportView)
    ensures
        health_seeded(m, report).gates.actuator_read_only <==> m.gates.actuator is None
            || report.refusal is Some || m.failures.restore is Some || m.failures.safety is Some
            || m.failures.worker is Some,
{
    let cleared = m.without_issue("scheduler.process_backend"@).without_issue(
        "scheduler.systemd_backend"@,
    );
    warnings_keep_the_rest(cleared, m.configuration.warnings.len());
}

/// Once a second the workload is looked at, and its tasks are planned anew where
/// tasks are scheduled at all.
pub proof fn the_workload_is_looked_at_each_second(m: Model, now: u64)
    requires
        m.selection.workload is Some,
        m.counters.last_workload_check <= now,
        m.counters.last_scheduler_scan <= now,
    ensures
        ({
            let looked = workload_checked(m, now);
            let scanned = tasks_scanned(m, now);
            &&& now - m.counters.last_workload_check >= 1_000 && m.work.identity_in_flight is None
                ==> {
                &&& looked.counters.last_workload_check == now
                &&& looked.outbox.last() is ReadIdentity
                &&& looked.outbox.last()->ReadIdentity_pid == m.selection.workload->0.identity.pid
                &&& looked.outbox.last()->purpose is Refresh
                &&& looked.outbox.last()->purpose->Refresh_expected
                    == m.selection.workload->0.identity
            }
            &&& now - m.counters.last_workload_check < 1_000 ==> looked == m
            &&& m.configuration.policy.scheduler_enabled && now - m.counters.last_scheduler_scan
                >= 1_000 ==> scanned.gates.scheduler_dirty && scanned.counters.last_scheduler_scan
                == now
            &&& !m.configuration.policy.scheduler_enabled || now - m.counters.last_scheduler_scan
                < 1_000 ==> scanned == m
        }),
{
}

/// A tick has the plan evaluated anew where tasks wait to be planned, or the pause
/// after a failure is over.
pub proof fn ticks_try_again(m: Model, changed: bool, verdict: ThermalState, now: u64)
    requires
        (m.gates.scheduler_dirty && !m.gates.suspended) || (m.retry.scheduler_failures != 0 && now
            >= m.retry.scheduler_not_before),
    ensures
        ticked(m, changed, verdict, now).outbox.len() > 0,
        ticked(m, changed, verdict, now).outbox.last() == (ActionView::Evaluate {
            then_barriers: false,
        }),
{
    let noted = thermal_noted(Model { caps: CapsView { thermal_state: verdict, ..m.caps }, ..m });
    caps_update_keeps(noted);
    assert(caps_updated(noted).retry.scheduler_failures == m.retry.scheduler_failures
        && caps_updated(noted).retry.scheduler_not_before == m.retry.scheduler_not_before) by {
        reveal(caps_updated);
    }
    let s = tick_stages(m, verdict, now);
    assert(s.judged == caps_updated(noted));
    assert(s.windowed.retry == s.judged.retry && s.windowed.gates == m.gates);
    let checked = tasks_scanned(workload_checked(s.windowed, now), now);
    assert(checked.retry == s.judged.retry && checked.gates.suspended == m.gates.suspended);
    assert(m.gates.scheduler_dirty ==> checked.gates.scheduler_dirty);
}

} // verus!
