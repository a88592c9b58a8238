//! What observations, outcomes and the published picture say, stated over what
//! goes in and what comes out.

use vstd::arithmetic::power2::{lemma_pow2_unfold, pow2};
use vstd::prelude::*;
use crate::model::{FrequencyLimits, Scene, SensorHealth, ThermalReading, ThermalState};
use crate::platform::{CpuTimes, LoadRatio};
use super::config::ZoneView;
use super::guarantees::ends_after;
use super::health::health_state;
use super::observers::{cpu_loads, frequencies_reduced, load_aged, BatchView};
use super::publish::{
    basis_points, daemon_state, signature, target_status, thermal_view, workload_view,
};
use super::reconcile::{
    frequencies_differ, outcome_recorded, reconciled, target_differs, OutcomeView,
};
use super::retry::{frequency_cleared, frequency_failed, scheduler_cleared, scheduler_failed};
use super::state::{ActionView, Model, ObservedFrequency, ReportView};
use super::thermal::{aged, hottest, sample_matches, zone_reading, SampleView};
use super::timing::{retry_delay, stale_sample};

verus! {

/// The hottest temperature is that of a trusted reading, and no trusted reading is
/// hotter; without a trusted reading there is none.
pub proof fn the_hottest_is_hottest(readings: Seq<ThermalReading>, n: nat, i: int)
    requires
        n <= readings.len(),
        0 <= i < n,
    ensures
        readings[i].health == SensorHealth::Healthy && readings[i].temperature is Some ==> hottest(
            readings,
            n,
        ) is Some && readings[i].temperature->0 <= hottest(readings, n)->0,
        hottest(readings, n) is Some ==> exists|j: int|
            0 <= j < n && (#[trigger] readings[j]).health == SensorHealth::Healthy
                && readings[j].temperature == hottest(readings, n),
    decreases n,
{
    let last = readings[n - 1];
    if n == 1 {
        assert(hottest(readings, 0) is None);
        if hottest(readings, n) is Some {
            assert(readings[0].temperature == hottest(readings, n));
        }
    } else {
        if i < n - 1 {
            the_hottest_is_hottest(readings, (n - 1) as nat, i);
        } else {
            the_hottest_is_hottest(readings, (n - 1) as nat, 0);
        }
        if hottest(readings, n) is Some {
            if hottest(readings, n) == hottest(readings, (n - 1) as nat) {
                let j = choose|j: int|
                    0 <= j < n - 1 && (#[trigger] readings[j]).health == SensorHealth::Healthy
                        && readings[j].temperature == hottest(readings, (n - 1) as nat);
                assert(readings[j].temperature == hottest(readings, n));
            } else {
                assert(readings[n - 1].temperature == hottest(readings, n));
            }
        }
    }
}

/// A zone has the reading of the first sample of its type, and of its file where
/// it names one; without such a sample its sensor is unavailable.
pub proof fn a_zone_has_its_own_reading(
    zone: ZoneView,
    samples: Seq<SampleView>,
    k: int,
    now: u64,
)
    requires
        0 <= k <= samples.len(),
        forall|i: int|
            0 <= i < k ==> (#[trigger] samples[i]).zone_type != zone.zone_type || (
            zone.sysfs_path is Some && crate::paths::path_view(samples[i].path)
                != crate::paths::path_view(zone.sysfs_path->0)),
    ensures
        k < samples.len() && samples[k].zone_type == zone.zone_type && (zone.sysfs_path is None
            || crate::paths::path_view(samples[k].path) == crate::paths::path_view(
            zone.sysfs_path->0,
        )) ==> zone_reading(zone, samples, 0, now) == samples[k].reading,
        k == samples.len() ==> zone_reading(zone, samples, 0, now).health
            == SensorHealth::Unavailable && zone_reading(zone, samples, 0, now).temperature is None,
{
    skipped_samples(zone, samples, 0, k, now);
}

proof fn skipped_samples(zone: ZoneView, samples: Seq<SampleView>, from: int, k: int, now: u64)
    requires
        0 <= from <= k <= samples.len(),
        forall|i: int| 0 <= i < k ==> !sample_matches(zone, #[trigger] samples[i]),
    ensures
        zone_reading(zone, samples, from, now) == zone_reading(zone, samples, k, now),
    decreases k - from,
{
    if from < k {
        assert(!sample_matches(zone, samples[from]));
        skipped_samples(zone, samples, from + 1, k, now);
    }
}

/// A trusted reading turns stale when it is older than its zone allows, or lies
/// ahead; until then it stays as it is. What is not trusted stays so.
pub proof fn old_readings_turn_stale(
    thermal: Map<Seq<char>, ThermalReading>,
    zone: ZoneView,
    now: u64,
)
    requires
        thermal.dom().contains(zone.id),
    ensures
        ({
            let before = thermal[zone.id];
            let after = aged(thermal, zone, now);
            let fresh = before.sampled_at <= now && now - before.sampled_at <= zone.stale_after_ms;
            &&& before.health == SensorHealth::Healthy && fresh ==> after == before
            &&& before.health == SensorHealth::Healthy && !fresh ==> after.health
                == SensorHealth::Stale
            &&& before.health != SensorHealth::Healthy ==> after == before
            &&& after.temperature == before.temperature && after.sampled_at == before.sampled_at
        }),
{
}

/// Load that was not seen for five intervals, and at least a second, is forgotten
/// and ends a boost; until then it stays.
pub proof fn old_load_is_forgotten(m: Model, now: u64, last: u64)
    requires
        m.observed.last_load_success == Some(last),
        m.configuration.policy.load_sample_interval_ms <= 1_000_000_000,
    ensures
        ({
            let interval = m.configuration.policy.load_sample_interval_ms;
            let after = load_aged(m, now);
            let old = last > now || (now - last > 5 * interval && now - last > 1_000);
            &&& !old ==> after == m
            &&& old ==> after.observed.cpu_loads.len() == 0
            &&& old && m.observed.hints.dom().contains(Scene::Boost)
                && m.observed.hints[Scene::Boost] is None ==> !after.observed.hints.dom().contains(
                Scene::Boost,
            )
        }),
{
}

/// A frequency observation is fresh for three seconds.
pub proof fn frequencies_are_fresh_for_a_while(last: Option<u64>, now: u64)
    ensures
        stale_sample(last, now) <==> !(last is Some && last->0 <= now && now - last->0 <= 3_000),
{
}

/// The observed frequencies are those that were read.
pub proof fn observations_are_taken_over(m: Model, batch: BatchView, now: u64)
    ensures
        ({
            let after = frequencies_reduced(m, Ok(batch), now);
            &&& after.observed.frequencies == batch.readings
            &&& batch.readings != Map::<Seq<char>, ObservedFrequency>::empty()
                ==> after.observed.last_frequency_success == Some(now)
        }),
{
}

/// The load of a CPU is the share of ticks in which it was busy: all that passed,
/// without those in which it was idle or waited for input or output.
pub proof fn load_is_what_was_not_idle(current: CpuTimes, previous: CpuTimes)
    requires
        current.load_since(previous) is Some,
    ensures
        ({
            let load = current.load_since(previous)->0;
            &&& load.total == (current.user - previous.user) + (current.nice - previous.nice) + (
            current.system - previous.system) + (current.idle - previous.idle) + (current.io_wait
                - previous.io_wait) + (current.irq - previous.irq) + (current.soft_irq
                - previous.soft_irq) + (current.steal - previous.steal)
            &&& load.total - load.busy == (current.idle - previous.idle) + (current.io_wait
                - previous.io_wait)
        }),
{
}

/// Counters that all went forward, one of them at least, and whose sums can be
/// counted, give a load.
pub proof fn forward_counters_give_a_load(current: CpuTimes, previous: CpuTimes)
    requires
        previous.user <= current.user,
        previous.nice <= current.nice,
        previous.system <= current.system,
        previous.idle <= current.idle,
        previous.io_wait <= current.io_wait,
        previous.irq <= current.irq,
        previous.soft_irq <= current.soft_irq,
        previous.steal <= current.steal,
        previous != current,
        current.user + current.nice + current.system + current.idle + current.io_wait + current.irq
            + current.soft_irq + current.steal <= u64::MAX,
    ensures
        current.load_since(previous) is Some,
{
}

/// A published load is the nearest number of ten-thousandths.
pub proof fn published_load_is_nearest(load: LoadRatio)
    requires
        0 < load.total,
        load.busy <= load.total,
    ensures
        2 * (basis_points(load) * load.total - 10_000 * load.busy) <= load.total,
        2 * (10_000 * load.busy - basis_points(load) * load.total) <= load.total,
        0 <= basis_points(load) <= 10_000,
{
    let t = load.total as int;
    let b = load.busy as int;
    let q = (2 * 10_000 * b + t) / (2 * t);
    assert(q * (2 * t) <= 2 * 10_000 * b + t < (q + 1) * (2 * t)) by (nonlinear_arith)
        requires
            q == (2 * 10_000 * b + t) / (2 * t),
            t > 0,
    ;
    assert(q <= 10_000) by (nonlinear_arith)
        requires
            q * (2 * t) <= 2 * 10_000 * b + t,
            0 <= b <= t,
            t > 0,
    ;
    assert(q >= 0) by (nonlinear_arith)
        requires
            2 * 10_000 * b + t < (q + 1) * (2 * t),
            0 <= b,
            t > 0,
    ;
    let x = q * t;
    assert(2 * x <= 2 * 10_000 * b + t && 2 * 10_000 * b + t < 2 * x + 2 * t) by (nonlinear_arith)
        requires
            q * (2 * t) <= 2 * 10_000 * b + t < (q + 1) * (2 * t),
            x == q * t,
    ;
    assert(2 * (x - 10_000 * b) <= t && 2 * (10_000 * b - x) <= t) by (nonlinear_arith)
        requires
            2 * x <= 2 * 10_000 * b + t && 2 * 10_000 * b + t < 2 * x + 2 * t,
    ;
    assert(2 * 10_000 * load.busy + load.total == 2 * 10_000 * b + t);
    assert(basis_points(load) == q);
    assert(basis_points(load) * load.total == x);
    assert(2 * (basis_points(load) * load.total - 10_000 * load.busy) == 2 * (x - 10_000 * b))
        by (nonlinear_arith)
        requires
            basis_points(load) * load.total == x,
            load.busy == b,
    ;
    assert(2 * (10_000 * load.busy - basis_points(load) * load.total) == 2 * (10_000 * b - x))
        by (nonlinear_arith)
        requires
            basis_points(load) * load.total == x,
            load.busy == b,
    ;
}

/// The published windows of a target are those that were seen, wanted and put in
/// force, and an override is shown exactly while there is one.
pub proof fn a_target_is_published_as_it_is(m: Model, id: Seq<char>, now: u64)
    ensures
        ({
            let s = target_status(m, id, now);
            &&& s.target_id == id
            &&& s.observed_available <==> m.observed.frequencies.dom().contains(id)
            &&& s.observed_available ==> s.observed_min_hz == m.observed.frequencies[id].limits.min
                && s.observed_max_hz == m.observed.frequencies[id].limits.max
            &&& s.desired_available <==> m.plans.desired is Some
                && m.plans.desired->0.frequencies.dom().contains(id)
            &&& s.desired_available ==> s.desired_min_hz == m.plans.desired->0.frequencies[id].min
                && s.desired_max_hz == m.plans.desired->0.frequencies[id].max
            &&& s.applied_verified <==> m.plans.applied.frequencies.dom().contains(id)
            &&& s.applied_verified ==> s.applied_min_hz == m.plans.applied.frequencies[id].min
                && s.applied_max_hz == m.plans.applied.frequencies[id].max
            &&& s.override_active <==> m.selection.overrides.dom().contains(id)
            &&& !s.observed_available ==> s.stale
        }),
{
}

/// The published temperature is the hottest one that fits its field, and caps and
/// stale sensors are shown while there are any.
pub proof fn temperature_is_published_as_it_is(m: Model)
    ensures
        ({
            let t = thermal_view(m);
            &&& m.observed.maximum_temperature is Some && i32::MIN
                <= m.observed.maximum_temperature->0 <= i32::MAX ==> t.max_temperature_millicelsius
                == m.observed.maximum_temperature->0
            &&& m.observed.maximum_temperature is Some && m.observed.maximum_temperature->0
                > i32::MAX ==> t.max_temperature_millicelsius == i32::MAX
            &&& m.observed.maximum_temperature is None ==> t.max_temperature_millicelsius == 0
            &&& t.cap_active <==> exists|k: Seq<char>| #[trigger] m.caps.thermal.dom().contains(k)
            &&& t.sensors_stale <==> m.caps.thermal_state == ThermalState::Degraded
            &&& m.caps.thermal_state == ThermalState::Normal ==> t.state == "normal"@
            &&& m.caps.thermal_state == ThermalState::Warning ==> t.state == "warning"@
            &&& m.caps.thermal_state == ThermalState::Throttled ==> t.state == "throttled"@
            &&& m.caps.thermal_state == ThermalState::Critical ==> t.state == "critical"@
        }),
{
    if forall|k: Seq<char>| !(#[trigger] m.caps.thermal.dom().contains(k)) {
        assert(m.caps.thermal =~= Map::<Seq<char>, u64>::empty());
    }
}

/// The published workload is the selected process under its full identity, with
/// the profile that was asked for and the one in effect.
pub proof fn the_workload_is_published_as_it_is(m: Model)
    ensures
        ({
            let w = workload_view(m);
            &&& w.present <==> m.selection.workload is Some
            &&& w.present ==> {
                let p = m.selection.workload->0;
                &&& w.identity.pid == p.identity.pid
                &&& w.identity.start_time_ticks == p.identity.start_time_ticks
                &&& w.identity.uid == p.identity.uid
                &&& w.name == p.comm
                &&& m.selection.profile is None ==> w.requested_mode.len() == 0
                &&& m.selection.profile is Some ==> w.requested_mode
                    == super::names::profile_text(m.selection.profile->0)
                &&& m.plans.desired is Some ==> w.effective_mode == super::names::profile_text(
                    m.plans.desired->0.effective_profile,
                )
            }
        }),
{
}

/// Health has failed while a finding that is not about heat is critical; it is
/// degraded while the actuator is read-only or something else restricts operation,
/// and healthy only if nothing does. Any of that shows in the daemon's state.
pub proof fn health_follows_the_findings(m: Model, k: Seq<char>)
    ensures
        m.issues.dom().contains(k) && m.issues[k].severity == "critical"@ && m.issues[k].component
            != "thermal"@ ==> health_state(m) == "failed"@,
        health_state(m) == "healthy"@ ==> !m.gates.actuator_read_only && (m.issues.dom().contains(k)
            ==> m.issues[k].severity != "warning"@ && m.issues[k].severity != "error"@
            && m.issues[k].severity != "critical"@),
        m.gates.actuator_read_only ==> health_state(m) != "healthy"@,
        (forall|c: Seq<char>| !(#[trigger] m.issues.dom().contains(c)))
            && !m.gates.actuator_read_only ==> health_state(m) == "healthy"@,
        !m.gates.stop_requested && health_state(m) == "healthy"@ ==> daemon_state(m) == "running"@,
        !m.gates.stop_requested && health_state(m) != "healthy"@ ==> daemon_state(m)
            == "degraded"@,
        m.gates.stop_requested ==> daemon_state(m) == "stopping"@,
{
    reveal_strlit("failed");
    reveal_strlit("degraded");
    reveal_strlit("healthy");
    assert("failed"@.len() == 6 && "degraded"@.len() == 8 && "healthy"@.len() == 7);
}

/// Clients are told of a change of any of these: the mode, the workload, the
/// profile, the scene, the verdict, what is wanted and what is in force.
pub proof fn the_signature_tells_states_apart(a: Model, b: Model)
    requires
        signature(a) == signature(b),
    ensures
        a.selection.mode == b.selection.mode,
        a.selection.workload is Some <==> b.selection.workload is Some,
        a.selection.workload is Some ==> a.selection.workload->0.identity
            == b.selection.workload->0.identity,
        a.counters.generation == b.counters.generation,
        a.counters.config_generation == b.counters.config_generation,
        a.caps.thermal_state == b.caps.thermal_state,
        a.plans.applied.frequencies == b.plans.applied.frequencies,
        a.plans.applied.tasks == b.plans.applied.tasks,
        a.plans.units == b.plans.units,
        a.gates.suspended == b.gates.suspended,
        a.plans.desired is Some && b.plans.desired is Some ==> {
            &&& a.plans.desired->0.effective_profile == b.plans.desired->0.effective_profile
            &&& a.plans.desired->0.dominant_scene == b.plans.desired->0.dominant_scene
            &&& a.plans.desired->0.frequencies == b.plans.desired->0.frequencies
            &&& a.plans.desired->0.tasks == b.plans.desired->0.tasks
        },
{
    let wa = super::workload::active_identity(a);
    let wb = super::workload::active_identity(b);
    assert(wa == wb);
}

/// Nothing is left to do on the frequencies where what is wanted is in force and
/// is what was seen, and something is left in any other case.
pub proof fn work_is_what_differs(
    wanted: Map<Seq<char>, FrequencyLimits>,
    applied: Map<Seq<char>, FrequencyLimits>,
    observed: Map<Seq<char>, ObservedFrequency>,
    k: Seq<char>,
)
    ensures
        !frequencies_differ(wanted, applied, observed) ==> {
            &&& wanted.dom().contains(k) <==> applied.dom().contains(k)
            &&& wanted.dom().contains(k) ==> applied[k] == wanted[k] && observed.dom().contains(k)
                && observed[k].limits == wanted[k]
        },
        (forall|c: Seq<char>| wanted.dom().contains(c) <==> #[trigger] applied.dom().contains(c))
            && (forall|c: Seq<char>| #[trigger]
            wanted.dom().contains(c) ==> applied[c] == wanted[c] && observed.dom().contains(c)
                && observed[c].limits == wanted[c]) ==> !frequencies_differ(
            wanted,
            applied,
            observed,
        ),
{
    if !frequencies_differ(wanted, applied, observed) {
        assert(!target_differs(wanted, applied, observed, k));
    }
}

/// Where nothing stands in the way and the frequencies or the tasks call for it,
/// a reconciliation of just these is started; else none is.
pub proof fn due_work_is_started(m: Model, now: u64)
    requires
        !m.gates.suspended,
        m.gates.mutations_activated,
        m.gates.accepting_control,
        !m.work.restore_requested,
        m.work.restore_in_flight is None,
        m.plans.reload is None,
        m.work.safety_update_in_flight is None,
        m.caps.pending is None,
        m.gates.actuator is Some,
        !m.gates.actuator_read_only,
        !m.work.reconcile_in_flight,
    ensures
        ({
            let after = reconciled(m, now);
            let wanted = m.plans.desired is Some && frequencies_differ(
                m.plans.desired->0.frequencies,
                m.plans.applied.frequencies,
                m.observed.frequencies,
            ) && now >= m.retry.frequency_not_before;
            let tasks = m.gates.scheduler_dirty && now >= m.retry.scheduler_not_before;
            &&& (wanted || tasks) ==> after.work.reconcile_in_flight && after.outbox.last() == (
            ActionView::Reconcile { frequencies: wanted, scheduler: tasks })
            &&& !wanted && !tasks ==> after == m
        }),
{
}

/// What a finished reconciliation put in force is in force; a failed part is tried
/// again after a pause, and one that succeeded has no failures left.
pub proof fn outcomes_are_taken_over(m: Model, o: OutcomeView, now: u64, report: ReportView)
    requires
        !m.gates.suspended,
    ensures
        ({
            let after = outcome_recorded(m, Ok(o), now, report);
            &&& after.plans.applied.frequencies == o.applied.frequencies
            &&& after.plans.applied.tasks == o.applied.tasks
            &&& after.plans.units == o.applied_units
            &&& !after.work.reconcile_in_flight
            &&& o.frequency_attempted && o.frequency_error is None
                ==> after.retry.frequency_failures == 0 && after.retry.frequency_not_before == 0
            &&& o.frequency_attempted && o.frequency_error is Some
                ==> after.retry.frequency_failures > 0 && after.retry.frequency_not_before >= now
            &&& o.scheduler_attempted && o.scheduler_error is None
                ==> after.retry.scheduler_failures == 0 && after.retry.scheduler_not_before == 0
            &&& o.scheduler_attempted && o.scheduler_error is Some
                ==> after.retry.scheduler_failures > 0 && after.retry.scheduler_not_before >= now
        }),
{
    reveal(outcome_recorded);
}

/// The pause after a failure doubles with each further one, from a tenth of a
/// second to two hundred and fifty-six of them.
pub proof fn pauses_double(n: nat)
    requires
        1 <= n <= 9,
    ensures
        retry_delay(n) == 100 * pow2((n - 1) as nat),
        retry_delay(n + 9) == 25_600,
    decreases n,
{
    if n > 1 {
        pauses_double((n - 1) as nat);
        lemma_pow2_unfold((n - 1) as nat);
        if n == 9 {
            vstd::arithmetic::power2::lemma2_to64();
        }
    } else {
        vstd::arithmetic::power2::lemma2_to64();
    }
}

/// A failure is counted, reported, and holds the next attempt back for its pause,
/// in its own domain alone.
pub proof fn failures_hold_back(m: Model, message: Seq<char>, now: u64)
    requires
        m.retry.frequency_failures < u32::MAX,
        m.retry.scheduler_failures < u32::MAX,
    ensures
        ({
            let f = frequency_failed(m, message, now);
            let s = scheduler_failed(m, message, now);
            &&& f.retry.frequency_failures == m.retry.frequency_failures + 1
            &&& ends_after(
                f.retry.frequency_not_before,
                now,
                retry_delay((m.retry.frequency_failures + 1) as nat) as u64,
            )
            &&& f.retry.scheduler_failures == m.retry.scheduler_failures
            &&& f.retry.scheduler_not_before == m.retry.scheduler_not_before
            &&& f.issues.dom().contains("reconciler.frequency_backoff"@)
            &&& s.retry.scheduler_failures == m.retry.scheduler_failures + 1
            &&& ends_after(
                s.retry.scheduler_not_before,
                now,
                retry_delay((m.retry.scheduler_failures + 1) as nat) as u64,
            )
            &&& s.retry.frequency_failures == m.retry.frequency_failures
            &&& s.issues.dom().contains("reconciler.scheduler_backoff"@)
            &&& frequency_cleared(m).retry.frequency_failures == 0
            &&& frequency_cleared(m).retry.frequency_not_before == 0
            &&& scheduler_cleared(m).retry.scheduler_failures == 0
            &&& scheduler_cleared(m).retry.scheduler_not_before == 0
        }),
{
    super::timing::retry_delay_is_bounded_and_monotone(
        (m.retry.frequency_failures + 1) as nat,
        (m.retry.frequency_failures + 1) as nat,
    );
    super::timing::retry_delay_is_bounded_and_monotone(
        (m.retry.scheduler_failures + 1) as nat,
        (m.retry.scheduler_failures + 1) as nat,
    );
}

} // verus!
