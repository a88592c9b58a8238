//! What samples, ticks and finished work lead to, stated over what goes in and what
//! comes out.

use vstd::prelude::*;
use crate::api::{ApiVersion, FREQUENCY_TRANSACTIONS, SYSTEMD_CGROUP, TASK_SCHEDULER};
use crate::linux::readings::written_numbers_are_read;
use crate::model::{Scene, ThermalState};
use crate::number::decimal_text;
use crate::paths::path_view;
use crate::platform::CpuCounters;
use crate::text::trimmed;
use super::barriers::{restore_finished, restore_recorded, resumed};
use super::config::{settings_view, tightens, tighter_caps, zone_paths, ConfigModel, SettingsView, ZoneView};
use super::health::{actuator_asked, health_seeded, warning_code, warnings_keep_the_rest, with_warnings};
use super::names::{mode_text, profile_text};
use super::observers::{
    cpu_loads, input_noted, load_reduced, logind_noted, tasks_scanned, tick_stages, ticked,
    times_of, workload_checked, HeavyView,
};
use super::observer::{settings_replaced, wake_reason, window_read, ControlView};
use super::publish::{
    announcements, basis_points, capabilities_view, status_view, telemetry_view, Changes,
    RuntimeEvent,
};
use super::reload::{caps_update_keeps, reload_received, reload_started};
use super::state::{ActionView, CapsView, Gates, Model, ReportView, SnapshotView, Work};
use super::thermal::{
    caps_updated, hottest, safety_finished, thermal_noted, thermal_reduced, thermal_unavailable, verdict_taken,
    zone_readings, SampleView,
};
use super::timing::deadline_after;

verus! {

/// Where two caps meet, the lower of them holds, and no other.
pub proof fn the_lower_cap_holds(a: Map<Seq<char>, u64>, b: Map<Seq<char>, u64>, k: Seq<char>)
    ensures
        tighter_caps(a, b) =~= tighter_caps(b, a),
        tighter_caps(a, b).dom().contains(k) ==> {
            let cap = tighter_caps(a, b)[k];
            (a.dom().contains(k) && cap == a[k]) || (b.dom().contains(k) && cap == b[k])
        },
        !a.dom().contains(k) && !b.dom().contains(k) ==> !tighter_caps(a, b).dom().contains(k),
{
}

/// A cap that is new or lower than before is noticed; caps that only rise or end
/// are not.
pub proof fn a_lower_cap_is_noticed(a: Map<Seq<char>, u64>, b: Map<Seq<char>, u64>, k: Seq<char>)
    ensures
        b.dom().contains(k) && (!a.dom().contains(k) || b[k] < a[k]) ==> tightens(a, b),
        (forall|c: Seq<char>| #[trigger]
            b.dom().contains(c) ==> a.dom().contains(c) && a[c] <= b[c]) ==> !tightens(a, b),
{
}

/// A configuration that moves a target to other files is refused, and what is in
/// force stays.
pub proof fn moved_targets_are_refused(
    m: Model,
    ticket: u64,
    configuration: ConfigModel,
    now: u64,
    report: ReportView,
    k: Seq<char>,
)
    requires
        configuration.targets.dom().contains(k),
        m.configuration.targets.dom().contains(k),
        path_view(configuration.targets[k].minimum_path) != path_view(
            m.configuration.targets[k].minimum_path,
        ) || path_view(configuration.targets[k].maximum_path) != path_view(
            m.configuration.targets[k].maximum_path,
        ),
    ensures
        ({
            let after = reload_received(m, ticket, Ok(configuration), now, report);
            &&& after.configuration == m.configuration
            &&& after.plans.reload == m.plans.reload
            &&& !after.work.reload_in_flight
            &&& after.outbox.last() is AnswerReload
            &&& after.outbox.last()->AnswerReload_ticket == ticket
            &&& after.outbox.last()->AnswerReload_result is Err
        }),
{
}

/// A reload is loaded exactly if neither another one nor the storing of a rule is
/// on its way; else its caller is told so.
pub proof fn reloads_come_one_at_a_time(m: Model, ticket: u64)
    ensures
        ({
            let after = reload_started(m, ticket);
            let busy = m.work.app_persist_in_flight || m.work.reload_in_flight;
            &&& !busy ==> after.work.reload_in_flight && after.outbox == m.outbox.push(
                ActionView::LoadConfiguration { ticket },
            )
            &&& busy ==> after.work == m.work && after.outbox.len() == m.outbox.len() + 1
                && after.outbox.last() is AnswerReload
                && after.outbox.last()->AnswerReload_ticket == ticket
                && after.outbox.last()->AnswerReload_result is Err
        }),
{
}

/// The observers are set up as the configuration says, and watch every file that a
/// zone names.
pub proof fn observers_follow_the_configuration(c: ConfigModel, generation: u64, i: int)
    requires
        0 <= i < c.zones.len(),
    ensures
        ({
            let s = settings_view(c, generation);
            &&& s.generation == generation
            &&& s.load_interval_ms == c.policy.load_sample_interval_ms
            &&& s.thermal_interval_ms == c.policy.thermal_sample_interval_ms
            &&& s.input == c.policy.input
            &&& c.zones[i].sysfs_path is Some ==> s.thermal_paths.contains(
                c.zones[i].sysfs_path->0,
            )
        }),
{
    if c.zones[i].sysfs_path is Some {
        zone_files_are_watched(c.zones, i);
    }
}

proof fn zone_files_are_watched(zones: Seq<ZoneView>, i: int)
    requires
        0 <= i < zones.len(),
        zones[i].sysfs_path is Some,
    ensures
        zone_paths(zones).contains(zones[i].sysfs_path->0),
    decreases zones.len(),
{
    let all = zone_paths(zones);
    let before = zone_paths(zones.drop_last());
    if i < zones.len() - 1 {
        zone_files_are_watched(zones.drop_last(), i);
        let j = choose|j: int| 0 <= j < before.len() && before[j] == zones[i].sysfs_path->0;
        assert(all[j] == before[j]);
    } else {
        assert(all[all.len() - 1] == zones[i].sysfs_path->0);
    }
}

/// The actuator may write exactly if there is one, it does not refuse, and nothing
/// has failed for good. Whether recovery is owed is its own answer, and owed where
/// it gives none.
pub proof fn the_actuator_decides_about_writing(m: Model, report: ReportView)
    ensures
        ({
            let after = actuator_asked(m, report);
            &&& after.gates.actuator_read_only <==> m.gates.actuator is None
                || report.refusal is Some || m.failures.restore is Some || m.failures.safety is Some
                || m.failures.worker is Some
            &&& m.gates.actuator is Some ==> (after.issues.dom().contains("actuator.degraded"@)
                <==> report.refusal is Some)
            &&& m.gates.actuator is Some && report.recovery_required is Some
                ==> after.gates.startup_recovery_pending == report.recovery_required->0
            &&& m.gates.actuator is Some && report.recovery_required is None
                ==> after.gates.startup_recovery_pending
            &&& m.gates.actuator is None ==> !after.gates.startup_recovery_pending
        }),
{
}

/// A deadline keeps its rhythm: it is one interval after the one before, or, where
/// that has passed, one interval from now.
pub proof fn deadlines_keep_their_rhythm(previous: u64, interval: u64, now: u64)
    requires
        interval > 0,
        previous + interval <= u64::MAX,
    ensures
        now < previous + interval ==> deadline_after(previous, interval, now) == previous
            + interval,
        now >= previous + interval ==> deadline_after(previous, interval, now) == now + interval,
{
}

/// A thermal sample puts its verdict in force and shows the hottest of the
/// readings of the configured zones; a failed one is reported and counts as a
/// failure of the sensors.
pub proof fn a_thermal_sample_is_taken_over(
    m: Model,
    samples: Seq<SampleView>,
    verdict: ThermalState,
    now: u64,
    message: Seq<char>,
)
    ensures
        ({
            let zones = m.configuration.zones;
            let good = thermal_reduced(m, Ok(samples), verdict, now);
            let bad = thermal_reduced(m, Err(message), verdict, now);
            &&& good.caps.thermal_state == verdict
            &&& good.observed.timestamp == now
            &&& good.observed.maximum_temperature == hottest(
                zone_readings(zones, samples, now),
                zones.len(),
            )
            &&& good.outbox.last() == (ActionView::Evaluate { then_barriers: false })
            &&& m.counters.telemetry_sequence < u64::MAX ==> good.counters.telemetry_sequence
                == m.counters.telemetry_sequence + 1
            &&& bad.caps.thermal_state == ThermalState::Degraded
            &&& bad.observed.maximum_temperature is None
            &&& bad.issues.dom().contains("thermal.degraded"@)
            &&& good.issues.dom().contains("thermal.degraded"@) <==> verdict
                == ThermalState::Degraded
            &&& verdict_taken(m, verdict).caps.thermal_state == verdict
            &&& verdict_taken(m, verdict).issues.dom().contains("thermal.degraded"@) <==> verdict
                == ThermalState::Degraded
        }),
{
    reveal_strlit("thermal.degraded");
    reveal_strlit("reconciler.frequency_backoff");
    assert("thermal.degraded"@.len() == 16 && "reconciler.frequency_backoff"@.len() == 28);
    reveal(thermal_unavailable);
    reveal(caps_updated);
}

/// A finished update of the safety caps is followed by the one that waits, if any,
/// and else by an evaluation; a failed one ends mutation.
pub proof fn safety_updates_follow_each_other(m: Model, id: u64, error: Seq<char>, report: ReportView)
    requires
        m.work.safety_update_in_flight == Some(id),
    ensures
        ({
            let done = safety_finished(m, id, Ok(()), report);
            let failed = safety_finished(m, id, Err(error), report);
            &&& m.caps.pending is Some ==> {
                &&& done.work.safety_update_in_flight is Some
                &&& done.caps.pending is None
                &&& done.outbox.last() == (ActionView::StartSafetyUpdate {
                    id: done.work.safety_update_in_flight->0,
                    caps: m.caps.pending->0,
                })
            }
            &&& m.caps.pending is None ==> done.work.safety_update_in_flight is None
                && done.outbox.last() == (ActionView::Evaluate { then_barriers: false })
            &&& done.failures == m.failures
            &&& failed.failures.safety is Some
            &&& failed.gates.actuator_read_only
            &&& failed.work.safety_update_in_flight is None
            &&& failed.caps.pending is None
            &&& failed.issues.dom().contains("safety.frequency_fence"@)
        }),
{
    reveal_strlit("safety.frequency_fence");
    reveal_strlit("actuator.degraded");
    assert("safety.frequency_fence"@.len() == 22 && "actuator.degraded"@.len() == 17);
}

/// Who woke the system while changes were still being undone is told when that is
/// over, and the system is awake then.
pub proof fn a_waiting_wake_up_is_finished(
    m: Model,
    id: u64,
    outcome: Result<(), Seq<char>>,
    now: u64,
    report: ReportView,
    i: int,
)
    requires
        m.work.restore_in_flight == Some(id),
        m.waiters.stop.len() == 0,
        m.work.pending_resume,
        0 <= i < m.waiters.wake.len(),
    ensures
        ({
            let after = restore_finished(m, id, outcome, now, report);
            &&& !after.gates.suspended
            &&& !after.work.pending_resume
            &&& after.waiters.wake.len() == 0
            &&& after.outbox[after.outbox.len() - m.waiters.wake.len() + i] == (
            ActionView::AnswerSleep { ticket: m.waiters.wake[i], result: Ok(()) })
        }),
{
    let noted = restore_recorded(m, outcome, report);
    waking_keeps_who_waits(
        Model {
            work: Work { pending_resume: false, restored_while_suspended: false, ..noted.work },
            ..noted
        },
        now,
        true,
    );
}

proof fn waking_keeps_who_waits(m: Model, now: u64, then_barriers: bool)
    ensures
        !resumed(m, now, then_barriers).gates.suspended,
        resumed(m, now, then_barriers).waiters == m.waiters,
        resumed(m, now, then_barriers).work.pending_resume == m.work.pending_resume,
{
    reveal(resumed);
    reveal(thermal_unavailable);
    let awake = Model { gates: Gates { suspended: false, ..m.gates }, ..m };
    let given_up = thermal_unavailable(awake, now);
    assert(given_up.gates == awake.gates && given_up.waiters == m.waiters && given_up.work
        == m.work);
    caps_update_keeps(given_up);
    assert(caps_updated(given_up).work.pending_resume == m.work.pending_resume) by {
        reveal(caps_updated);
    }
}

/// A load sample is kept to be compared with the next. One compared with the
/// sample before gives each CPU that both hold, and whose counters went forward,
/// its own load.
pub proof fn a_load_sample_is_taken_over(m: Model, sample: SnapshotView, heavy: HeavyView)
    ensures
        ({
            let after = load_reduced(m, Ok(sample), heavy);
            &&& m.observed.previous_cpu_times is None ==> after.observed.previous_cpu_times == Some(
                sample,
            ) && after.observed.last_load_success == Some(sample.observed_at)
            &&& m.observed.previous_cpu_times is Some && (!m.configuration.policy.load_enabled
                || sample.aggregate.load_since(m.observed.previous_cpu_times->0.aggregate) is Some)
                ==> {
                &&& after.observed.previous_cpu_times == Some(sample)
                &&& after.observed.last_load_success == Some(sample.observed_at)
                &&& after.observed.cpu_loads == cpu_loads(
                    sample.cpus,
                    m.observed.previous_cpu_times->0.cpus,
                )
            }
            &&& m.observed.previous_cpu_times is Some && !m.configuration.policy.load_enabled
                ==> !after.observed.hints.dom().contains(Scene::Boost)
            &&& m.observed.previous_cpu_times is Some ==> after.outbox.last() == (
            ActionView::Evaluate { then_barriers: false })
        }),
{
}

/// The load of a CPU compares its own counters with its own counters from before.
pub proof fn a_cpu_has_its_own_load(
    current: Seq<CpuCounters>,
    previous: Seq<CpuCounters>,
    i: int,
    j: int,
)
    requires
        0 <= i < current.len(),
        0 <= j < previous.len(),
        previous[j].cpu == current[i].cpu,
        forall|k: int| 0 <= k < j ==> (#[trigger] previous[k]).cpu != current[i].cpu,
        current[i].times.load_since(previous[j].times) is Some,
    ensures
        exists|n: int|
            0 <= n < cpu_loads(current, previous).len() && (#[trigger] cpu_loads(
                current,
                previous,
            )[n]).cpu == current[i].cpu && cpu_loads(current, previous)[n].load
                == current[i].times.load_since(previous[j].times)->0,
    decreases current.len(),
{
    let all = cpu_loads(current, previous);
    let before = cpu_loads(current.drop_last(), previous);
    counters_are_found(previous, current[i].cpu, 0, j);
    if i < current.len() - 1 {
        a_cpu_has_its_own_load(current.drop_last(), previous, i, j);
        let n = choose|n: int|
            0 <= n < before.len() && (#[trigger] before[n]).cpu == current[i].cpu && before[n].load
                == current[i].times.load_since(previous[j].times)->0;
        assert(all[n] == before[n]);
    } else {
        assert(all[all.len() - 1].cpu == current[i].cpu);
    }
}

proof fn counters_are_found(cpus: Seq<CpuCounters>, cpu: u32, k: int, j: int)
    requires
        0 <= k <= j < cpus.len(),
        cpus[j].cpu == cpu,
        forall|i: int| 0 <= i < j ==> (#[trigger] cpus[i]).cpu != cpu,
    ensures
        times_of(cpus, cpu, k) == Some(cpus[j].times),
    decreases j - k,
{
    if k < j {
        counters_are_found(cpus, cpu, k + 1, j);
    }
}

/// A failed observer is reported until it works again.
pub proof fn failed_observers_are_reported(m: Model, error: Seq<char>)
    ensures
        logind_noted(m, Err(error)).issues.dom().contains("observer.logind"@),
        logind_noted(m, Err(error)).issues["observer.logind"@].message == error,
        !logind_noted(m, Ok(())).issues.dom().contains("observer.logind"@),
        input_noted(m, Err(error)).issues.dom().contains("observer.input"@),
        input_noted(m, Err(error)).issues["observer.input"@].message == error,
        !input_noted(m, Ok(())).issues.dom().contains("observer.input"@),
{
}

/// A tick puts the verdict in force, and has the plan evaluated anew whenever the
/// verdict changed or there is none yet.
pub proof fn ticks_follow_the_verdict(m: Model, changed: bool, verdict: ThermalState, now: u64)
    ensures
        ({
            let after = ticked(m, changed, verdict, now);
            &&& after.caps.thermal_state == verdict
            &&& changed || verdict != m.caps.thermal_state || m.plans.desired is None
                ==> after.outbox.len() > 0 && after.outbox.last() == (ActionView::Evaluate {
                then_barriers: false,
            })
            &&& forall|k: Seq<char>| #[trigger]
                after.selection.overrides.dom().contains(k) ==> m.selection.overrides.dom().contains(
                    k,
                ) && (m.selection.overrides[k].expires_at is None
                    || m.selection.overrides[k].expires_at->0 > now)
        }),
{
    let noted = thermal_noted(
        Model { caps: CapsView { thermal_state: verdict, ..m.caps }, ..m },
    );
    caps_update_keeps(noted);
    let s = tick_stages(m, verdict, now);
    assert(s.judged == caps_updated(noted));
    assert(s.windowed.caps == s.judged.caps);
    assert(s.windowed.plans == m.plans);
    assert(s.hinted.selection == m.selection);
    let checked = tasks_scanned(workload_checked(s.windowed, now), now);
    assert(checked.caps == s.judged.caps && checked.plans == m.plans && checked.selection
        == s.windowed.selection);
}

/// The published status shows the mode, the profile and the generations in force.
pub proof fn the_status_is_published_as_it_is(
    m: Model,
    version: ApiVersion,
    daemon_version: Seq<char>,
    codes: Seq<Seq<char>>,
    ids: Seq<Seq<char>>,
    now: u64,
    i: int,
)
    requires
        0 <= i < codes.len(),
    ensures
        ({
            let s = status_view(m, version, daemon_version, codes, ids, now);
            &&& s.api_version == version
            &&& s.daemon_version == daemon_version
            &&& s.mode == mode_text(m.selection.mode)
            &&& m.plans.desired is Some ==> s.effective_profile == profile_text(
                m.plans.desired->0.effective_profile,
            )
            &&& m.plans.desired is None ==> s.effective_profile == profile_text(
                m.configuration.policy.default_profile,
            )
            &&& s.config_generation == m.counters.config_generation
            &&& s.reconcile_generation == m.plans.applied.generation
            &&& s.health.read_only == m.gates.actuator_read_only
            &&& s.health.recovery_pending == m.gates.startup_recovery_pending
            &&& s.health.issues.len() == codes.len()
            &&& s.health.issues[i] == m.issues[codes[i]]
            &&& s.frequencies.len() == ids.len()
        }),
{
}

/// The published telemetry shows each CPU its own load, the sequence and the time
/// of the observation.
pub proof fn telemetry_is_published_as_it_is(m: Model, ids: Seq<Seq<char>>, now: u64, i: int)
    requires
        0 <= i < m.observed.cpu_loads.len(),
    ensures
        ({
            let t = telemetry_view(m, ids, now);
            let sample = m.observed.cpu_loads[i];
            &&& t.sequence == m.counters.telemetry_sequence
            &&& t.monotonic_ms == m.observed.timestamp
            &&& t.cpu_loads.len() == m.observed.cpu_loads.len()
            &&& t.cpu_loads[i].cpu_id == sample.cpu
            &&& sample.load.total > 0 ==> t.cpu_loads[i].utilization_basis_points == basis_points(
                sample.load,
            ) as u16
            &&& t.frequencies.len() == ids.len()
        }),
{
}

/// Targets can be overridden, and the features that write are offered, exactly
/// while the actuator may write.
pub proof fn only_what_can_be_done_is_offered(m: Model, i: int)
    requires
        0 <= i < m.configuration.capabilities.targets.len(),
    ensures
        ({
            let c = capabilities_view(m);
            let may_write = m.gates.actuator is Some && !m.gates.actuator_read_only;
            &&& c.targets.len() == m.configuration.capabilities.targets.len()
            &&& c.targets[i].can_override == may_write
            &&& c.targets[i].id == m.configuration.capabilities.targets[i].id
            &&& c.targets[i].minimum_hz == m.configuration.capabilities.targets[i].minimum_hz
            &&& c.targets[i].maximum_hz == m.configuration.capabilities.targets[i].maximum_hz
            &&& c.modes == m.configuration.capabilities.modes
            &&& may_write ==> c.features.contains(FREQUENCY_TRANSACTIONS@)
            &&& may_write && m.configuration.policy.scheduler_enabled
                && m.gates.actuator->0.process_backend ==> c.features.contains(TASK_SCHEDULER@)
            &&& may_write && m.configuration.policy.scheduler_enabled
                && m.configuration.policy.has_cgroup_classes && m.gates.actuator->0.systemd_backend
                ==> c.features.contains(SYSTEMD_CGROUP@)
            &&& !may_write ==> c.features == m.configuration.capabilities.features
            &&& may_write ==> c.features.len() == m.configuration.capabilities.features.len() + 1
                + (if m.configuration.policy.scheduler_enabled
                && m.gates.actuator->0.process_backend {
                1int
            } else {
                0
            }) + (if m.configuration.policy.scheduler_enabled
                && m.configuration.policy.has_cgroup_classes
                && m.gates.actuator->0.systemd_backend {
                1int
            } else {
                0
            })
        }),
{
    let base = m.configuration.capabilities.features;
    let f = capabilities_view(m).features;
    if m.gates.actuator is Some && !m.gates.actuator_read_only {
        assert(f[base.len() as int] == FREQUENCY_TRANSACTIONS@);
        let tasks = m.configuration.policy.scheduler_enabled
            && m.gates.actuator->0.process_backend;
        if tasks {
            assert(f[base.len() as int + 1] == TASK_SCHEDULER@);
        }
        if m.configuration.policy.scheduler_enabled && m.configuration.policy.has_cgroup_classes
            && m.gates.actuator->0.systemd_backend {
            assert(f[f.len() - 1] == SYSTEMD_CGROUP@);
        }
    }
}

/// Clients hear of exactly what changed.
pub proof fn what_changed_is_announced(c: Changes, revision: u64)
    ensures
        ({
            let a = announcements(c, revision);
            &&& a.contains(RuntimeEvent::Published) <==> c.state || c.health || c.capabilities
                || c.telemetry
            &&& a.contains(RuntimeEvent::StateChanged(revision)) <==> c.state
            &&& a.contains(RuntimeEvent::HealthChanged) <==> c.health
            &&& a.contains(RuntimeEvent::CapabilitiesChanged) <==> c.capabilities
        }),
{
    let a = announcements(c, revision);
    if c.state || c.health || c.capabilities || c.telemetry {
        assert(a[0] == RuntimeEvent::Published);
    }
    if c.state {
        assert(a[1] == RuntimeEvent::StateChanged(revision));
    }
    if c.health {
        let at: int = if c.state {
            2
        } else {
            1
        };
        assert(a[at] == RuntimeEvent::HealthChanged);
    }
    if c.capabilities {
        assert(a[a.len() - 1] == RuntimeEvent::CapabilitiesChanged);
    }
}

/// A window is read in hertz, its ends from their own files, and a reversed one is
/// refused.
pub proof fn a_window_is_read_in_hertz(
    minimum_path: Seq<char>,
    low_text: Seq<char>,
    maximum_path: Seq<char>,
    high_text: Seq<char>,
    low: nat,
    high: nat,
    unit: u64,
)
    requires
        trimmed(low_text) == decimal_text(low),
        trimmed(high_text) == decimal_text(high),
        low <= u64::MAX,
        high <= u64::MAX,
        low * unit <= u64::MAX,
        high * unit <= u64::MAX,
    ensures
        ({
            let w = window_read(minimum_path, Ok(low_text), maximum_path, Ok(high_text), unit);
            &&& low * unit <= high * unit ==> w is Ok && w->Ok_0.min == low * unit && w->Ok_0.max
                == high * unit
            &&& low * unit > high * unit ==> w is Err
        }),
{
    written_numbers_are_read(low, u64::MAX as nat);
    written_numbers_are_read(high, u64::MAX as nat);
}

/// An observer wakes to stop, for newer settings, or for a sample that is due, in
/// this order; else it sleeps until the next one is.
pub proof fn observers_wake_for_a_reason(c: ControlView, generation: u64, deadline: u64, now: u64)
    ensures
        ({
            let wake = wake_reason(c, generation, deadline, now);
            &&& c.stopping <==> wake is Stop
            &&& !c.stopping && c.generation != generation <==> wake is Settings
            &&& !c.stopping && c.generation == generation && deadline <= now <==> wake is Deadline
            &&& wake is Wait ==> now + wake->Wait_0 == deadline && wake->Wait_0 > 0
        }),
{
}

/// New settings are taken over under a new generation, except while stopping.
pub proof fn new_settings_are_taken_over(c: ControlView, settings: SettingsView)
    requires
        c.generation < u64::MAX,
    ensures
        !c.stopping ==> settings_replaced(c, settings).settings == settings && settings_replaced(
            c,
            settings,
        ).generation == c.generation + 1,
        c.stopping ==> settings_replaced(c, settings) == c,
        settings_replaced(c, settings).stopping == c.stopping,
{
}

/// A missing backend is reported exactly where the configuration needs it.
pub proof fn missing_backends_are_reported(m: Model, report: ReportView)
    requires
        m.gates.actuator is Some,
    ensures
        ({
            let after = health_seeded(m, report);
            let needs = m.configuration.policy.scheduler_enabled;
            &&& after.issues.dom().contains("scheduler.process_backend"@) <==> needs
                && !m.gates.actuator->0.process_backend
            &&& after.issues.dom().contains("scheduler.systemd_backend"@) <==> needs
                && m.configuration.policy.has_cgroup_classes && !m.gates.actuator->0.systemd_backend
        }),
{
    reveal_strlit("scheduler.process_backend");
    reveal_strlit("scheduler.systemd_backend");
    reveal_strlit("actuator.degraded");
    assert("scheduler.process_backend"@[10] == 'p' && "scheduler.systemd_backend"@[10] == 's');
    assert("scheduler.process_backend"@[0] == 's' && "scheduler.systemd_backend"@[0] == 's'
        && "actuator.degraded"@[0] == 'a');
    let cleared = m.without_issue("scheduler.process_backend"@).without_issue(
        "scheduler.systemd_backend"@,
    );
    warnings_have_their_own_codes(cleared, m.configuration.warnings.len());
    warnings_keep_the_rest(cleared, m.configuration.warnings.len());
}

proof fn warnings_have_their_own_codes(m: Model, n: nat)
    ensures
        forall|c: Seq<char>|
            c.len() > 0 && c[0] != 'd' ==> (#[trigger] with_warnings(m, n).issues.dom().contains(c)
                <==> m.issues.dom().contains(c)),
    decreases n,
{
    if n > 0 {
        warnings_have_their_own_codes(m, (n - 1) as nat);
        reveal_strlit("discovery.warning.");
        let code = warning_code((n - 1) as nat);
        assert(code[0] == "discovery.warning."@[0]);
        assert("discovery.warning."@[0] == 'd');
        assert forall|c: Seq<char>| c.len() > 0 && c[0] != 'd' implies (
        #[trigger] with_warnings(m, n).issues.dom().contains(c) <==> m.issues.dom().contains(
            c,
        )) by {
            assert(c != code);
            assert(with_warnings(m, (n - 1) as nat).issues.dom().contains(c)
                <==> m.issues.dom().contains(c));
        }
    }
}

} // verus!
