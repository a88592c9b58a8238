//! What the operations of the daemon are for, stated over what goes in and what
//! comes out.

use vstd::prelude::*;
use crate::api::OverrideView;
use crate::model::{ProfileId, Scene, ThermalState};
use crate::order::sorted_row_is_unique;
use super::observers::{load_reduced, HeavyView};
use super::overrides::{
    active_ids, all_checked, batch_error, ids_cleared, live_windows, override_error,
    overrides_set, set_error, with_requests,
};
use super::reconcile::policy_input;
use super::state::{ActionView, Model, SnapshotView, TimedOverride};
use super::thermal::caps_updated;

verus! {

/// A thermal verdict bounds each configured target: a critical one by its
/// critical cap, an untrusted sensor by its cap for that, and a warning or a
/// throttling by its efficient cap where it has an automatic policy, a throttling
/// by its reference too. Where the administrator sets no cap of their own, the
/// bound is no tighter than that, and under a normal verdict there is none. The
/// policy engine is given the same caps as the frequency fence.
pub proof fn each_verdict_bounds_each_target(m: Model, k: Seq<char>)
    requires
        m.failures.safety is None,
        m.configuration.targets.dom().contains(k),
    ensures
        ({
            let target = m.configuration.targets[k];
            let state = m.caps.thermal_state;
            let after = caps_updated(m);
            let fence = after.caps.requested;
            let policy = after.caps.thermal;
            let free = !m.configuration.administrator_caps.dom().contains(k);
            &&& state == ThermalState::Critical ==> {
                &&& fence.dom().contains(k) && fence[k] <= target.critical_cap
                &&& policy.dom().contains(k) && policy[k] == target.critical_cap
                &&& free ==> fence[k] == target.critical_cap
            }
            &&& state == ThermalState::Degraded ==> {
                &&& fence.dom().contains(k) && fence[k] <= target.sensor_failure_cap
                &&& policy.dom().contains(k) && policy[k] == target.sensor_failure_cap
                &&& free ==> fence[k] == target.sensor_failure_cap
            }
            &&& state == ThermalState::Warning && target.automatic_policy is Some ==> {
                &&& fence.dom().contains(k)
                &&& fence[k] <= target.automatic_policy->0.efficient_cap
                &&& policy.dom().contains(k)
                &&& policy[k] == target.automatic_policy->0.efficient_cap
                &&& free ==> fence[k] == target.automatic_policy->0.efficient_cap
            }
            &&& state == ThermalState::Throttled && target.automatic_policy is Some ==> {
                let p = target.automatic_policy->0;
                &&& fence.dom().contains(k)
                &&& fence[k] <= p.efficient_cap && fence[k] <= p.reference
                &&& policy.dom().contains(k)
                &&& policy[k] <= p.efficient_cap && policy[k] <= p.reference
                &&& policy[k] == p.efficient_cap || policy[k] == p.reference
                &&& free ==> fence[k] == p.efficient_cap || fence[k] == p.reference
            }
            &&& state == ThermalState::Throttled && target.automatic_policy is None ==> {
                &&& fence.dom().contains(k)
                &&& policy.dom().contains(k)
                &&& fence[k] <= policy[k]
                &&& free ==> fence[k] == policy[k]
            }
            &&& state == ThermalState::Warning && target.automatic_policy is None ==> {
                &&& !policy.dom().contains(k)
                &&& free ==> !fence.dom().contains(k)
            }
            &&& state == ThermalState::Normal ==> {
                &&& !policy.dom().contains(k)
                &&& free ==> !fence.dom().contains(k)
            }
            &&& !free ==> fence.dom().contains(k) && fence[k]
                <= m.configuration.administrator_caps[k]
            &&& !free && state == ThermalState::Normal ==> fence[k]
                == m.configuration.administrator_caps[k]
        }),
{
    reveal(caps_updated);
}

/// New caps are on their way to the fence at once, or wait for the ones before
/// them; none are lost.
pub proof fn new_caps_reach_the_fence(m: Model)
    requires
        m.failures.safety is None,
        caps_updated(m).caps.requested != m.caps.requested,
    ensures
        ({
            let after = caps_updated(m);
            &&& m.work.safety_update_in_flight is None ==> {
                &&& after.work.safety_update_in_flight is Some
                &&& exists|i: int|
                    0 <= i < after.outbox.len() && #[trigger] after.outbox[i]
                        == (ActionView::StartSafetyUpdate {
                        id: after.work.safety_update_in_flight->0,
                        caps: after.caps.requested,
                    })
            }
            &&& m.work.safety_update_in_flight is Some ==> after.caps.pending == Some(
                after.caps.requested,
            )
        }),
{
    reveal(caps_updated);
    let after = caps_updated(m);
    if m.work.safety_update_in_flight is None {
        assert(after.outbox[after.outbox.len() - 1] == (ActionView::StartSafetyUpdate {
            id: after.work.safety_update_in_flight->0,
            caps: after.caps.requested,
        }));
    }
}

/// A throttled target without an automatic policy is held at the middle of the
/// frequencies that it offers, in any row of them that goes up; one that offers
/// none, at the middle of its window.
pub proof fn throttling_holds_the_middle(m: Model, k: Seq<char>, row: Seq<u64>)
    requires
        m.configuration.targets.dom().contains(k),
        m.configuration.targets[k].automatic_policy is None,
        m.caps.thermal_state == ThermalState::Throttled,
        row.to_multiset() == m.configuration.targets[k].available_frequencies.to_multiset(),
        forall|i: int, j: int| 0 <= i < j < row.len() ==> row[i] <= row[j],
    ensures
        ({
            let target = m.configuration.targets[k];
            let cap = caps_updated(m).caps.thermal[k];
            let low = target.hardware_limits.min;
            let high = target.hardware_limits.max;
            &&& row.len() > 0 ==> cap == row[row.len() as int / 2]
            &&& row.len() > 0 ==> target.available_frequencies.contains(cap)
            &&& row.len() == 0 && low <= high && low + high <= u64::MAX ==> {
                &&& low <= cap <= high
                &&& 2 * cap <= low + high <= 2 * cap + 1
            }
        }),
{
    reveal(caps_updated);
    sorted_row_is_unique(m.configuration.targets[k].available_frequencies, row);
    if row.len() > 0 {
        assert(row.contains(row[row.len() as int / 2]));
    }
}

/// Whether a time is that much later than another, held at the largest time.
pub open spec fn ends_after(end: u64, now: u64, duration: u64) -> bool {
    end == now + duration || (now + duration > u64::MAX && end == u64::MAX)
}

/// After an accepted batch each requested target has exactly the window that was
/// asked for, for as long as was asked; the other targets keep theirs.
pub proof fn accepted_windows_are_the_requested_ones(
    m: Model,
    requests: Seq<OverrideView>,
    ticket: u64,
    now: u64,
    k: Seq<char>,
)
    requires
        set_error(m, requests) is None,
    ensures
        ({
            let kept = overrides_set(m, requests, ticket, now).selection.overrides;
            &&& forall|i: int|
                0 <= i < requests.len() ==> {
                    let r = #[trigger] requests[i];
                    &&& kept.dom().contains(r.target_id)
                    &&& kept[r.target_id].limits.min == r.min_hz
                    &&& kept[r.target_id].limits.max == r.max_hz
                    &&& r.ttl_ms == 0 ==> kept[r.target_id].expires_at is None
                    &&& r.ttl_ms > 0 ==> kept[r.target_id].expires_at is Some && ends_after(
                        kept[r.target_id].expires_at->0,
                        now,
                        r.ttl_ms,
                    )
                }
            &&& (forall|i: int| 0 <= i < requests.len() ==> (#[trigger] requests[i]).target_id != k)
                ==> (kept.dom().contains(k) <==> m.selection.overrides.dom().contains(k)) && (
            kept.dom().contains(k) ==> kept[k] == m.selection.overrides[k])
        }),
{
    let kept = overrides_set(m, requests, ticket, now).selection.overrides;
    assert forall|i: int| 0 <= i < requests.len() implies {
        let r = #[trigger] requests[i];
        &&& kept.dom().contains(r.target_id)
        &&& kept[r.target_id].limits.min == r.min_hz
        &&& kept[r.target_id].limits.max == r.max_hz
        &&& r.ttl_ms == 0 ==> kept[r.target_id].expires_at is None
        &&& r.ttl_ms > 0 ==> kept[r.target_id].expires_at is Some && ends_after(
            kept[r.target_id].expires_at->0,
            now,
            r.ttl_ms,
        )
    } by {
        targets_of_a_batch_differ(m, requests);
        window_of_request(m.selection.overrides, requests, requests.len(), now, i);
    }
    if forall|i: int| 0 <= i < requests.len() ==> (#[trigger] requests[i]).target_id != k {
        other_windows_stay(m.selection.overrides, requests, requests.len(), now, k);
    }
}

/// No target is named twice in an accepted batch.
pub proof fn targets_of_a_batch_differ(m: Model, requests: Seq<OverrideView>)
    requires
        set_error(m, requests) is None,
    ensures
        forall|i: int, j: int|
            0 <= j < i < requests.len() ==> (#[trigger] requests[i]).target_id != (
            #[trigger] requests[j]).target_id,
{
    assert forall|i: int, j: int| 0 <= j < i < requests.len() implies (
    #[trigger] requests[i]).target_id != (#[trigger] requests[j]).target_id by {
        all_checked(m, requests, requests.len(), i);
    }
}

proof fn window_of_request(
    overrides: Map<Seq<char>, TimedOverride>,
    requests: Seq<OverrideView>,
    n: nat,
    now: u64,
    i: int,
)
    requires
        0 <= i < n <= requests.len(),
        forall|i: int, j: int|
            0 <= j < i < requests.len() ==> (#[trigger] requests[i]).target_id != (
            #[trigger] requests[j]).target_id,
    ensures
        ({
            let kept = with_requests(overrides, requests, n, now);
            let r = requests[i];
            &&& kept.dom().contains(r.target_id)
            &&& kept[r.target_id].limits.min == r.min_hz
            &&& kept[r.target_id].limits.max == r.max_hz
            &&& r.ttl_ms == 0 ==> kept[r.target_id].expires_at is None
            &&& r.ttl_ms > 0 ==> kept[r.target_id].expires_at is Some && ends_after(
                kept[r.target_id].expires_at->0,
                now,
                r.ttl_ms,
            )
        }),
    decreases n,
{
    if i < n - 1 {
        window_of_request(overrides, requests, (n - 1) as nat, now, i);
        assert(requests[n - 1].target_id != requests[i].target_id);
    }
}

proof fn other_windows_stay(
    overrides: Map<Seq<char>, TimedOverride>,
    requests: Seq<OverrideView>,
    n: nat,
    now: u64,
    k: Seq<char>,
)
    requires
        n <= requests.len(),
        forall|i: int| 0 <= i < requests.len() ==> (#[trigger] requests[i]).target_id != k,
    ensures
        ({
            let kept = with_requests(overrides, requests, n, now);
            &&& kept.dom().contains(k) <==> overrides.dom().contains(k)
            &&& kept.dom().contains(k) ==> kept[k] == overrides[k]
        }),
    decreases n,
{
    if n > 0 {
        other_windows_stay(overrides, requests, (n - 1) as nat, now, k);
        assert(requests[n - 1].target_id != k);
    }
}

/// A batch is accepted where nothing speaks against it: the sensors are trusted,
/// the actuator may write, and each request names another known target with a
/// window inside its hardware.
pub proof fn a_sound_batch_is_accepted(m: Model, requests: Seq<OverrideView>)
    requires
        m.caps.thermal_state != ThermalState::Degraded,
        m.gates.actuator is Some,
        !m.gates.actuator_read_only,
        requests.len() > 0,
        forall|i: int|
            0 <= i < requests.len() ==> {
                let r = #[trigger] requests[i];
                let targets = m.configuration.targets;
                &&& crate::model::valid_id(r.target_id)
                &&& targets.dom().contains(r.target_id)
                &&& targets[r.target_id].hardware_limits.min <= r.min_hz <= r.max_hz
                &&& r.max_hz <= targets[r.target_id].hardware_limits.max
            },
        forall|i: int, j: int|
            0 <= j < i < requests.len() ==> (#[trigger] requests[i]).target_id != (
            #[trigger] requests[j]).target_id,
    ensures
        set_error(m, requests) is None,
{
    no_request_refused(m, requests, requests.len());
}

proof fn no_request_refused(m: Model, requests: Seq<OverrideView>, n: nat)
    requires
        n <= requests.len(),
        forall|i: int|
            0 <= i < requests.len() ==> {
                let r = #[trigger] requests[i];
                let targets = m.configuration.targets;
                &&& crate::model::valid_id(r.target_id)
                &&& targets.dom().contains(r.target_id)
                &&& targets[r.target_id].hardware_limits.min <= r.min_hz <= r.max_hz
                &&& r.max_hz <= targets[r.target_id].hardware_limits.max
            },
        forall|i: int, j: int|
            0 <= j < i < requests.len() ==> (#[trigger] requests[i]).target_id != (
            #[trigger] requests[j]).target_id,
    ensures
        batch_error(m, requests, n) is None,
    decreases n,
{
    if n > 0 {
        no_request_refused(m, requests, (n - 1) as nat);
        let r = requests[n - 1];
        assert(override_error(m, requests, n - 1) is None);
    }
}

/// Clearing windows removes the named ones and no other, and without anything
/// that stops it always does.
pub proof fn cleared_windows_are_gone(
    m: Model,
    ids: Seq<Seq<char>>,
    ticket: u64,
    k: Seq<char>,
)
    ensures
        ({
            let kept = ids_cleared(m, ids, ticket).selection.overrides;
            &&& ids.contains(k) ==> !kept.dom().contains(k)
            &&& !ids.contains(k) ==> (kept.dom().contains(k)
                <==> m.selection.overrides.dom().contains(k))
            &&& kept.dom().contains(k) ==> kept[k] == m.selection.overrides[k]
        }),
{
    active_ids_are(m.selection.overrides, ids, ids.len());
    assert(ids.take(ids.len() as int) =~= ids);
    let changed = active_ids(m.selection.overrides, ids, ids.len());
    assert(changed.contains(k) <==> ids.contains(k) && m.selection.overrides.dom().contains(k));
    if changed.len() > 0 {
        assert(changed.to_set().contains(k) <==> changed.contains(k));
    }
}

proof fn active_ids_are(overrides: Map<Seq<char>, TimedOverride>, ids: Seq<Seq<char>>, n: nat)
    requires
        n <= ids.len(),
    ensures
        forall|k: Seq<char>| #[trigger]
            active_ids(overrides, ids, n).contains(k) <==> ids.take(n as int).contains(k)
                && overrides.dom().contains(k),
    decreases n,
{
    if n > 0 {
        active_ids_are(overrides, ids, (n - 1) as nat);
        let before = active_ids(overrides, ids, (n - 1) as nat);
        let last = ids[n - 1];
        assert(ids.take(n as int) =~= ids.take(n - 1).push(last));
        assert forall|k: Seq<char>| #[trigger] active_ids(overrides, ids, n).contains(k)
            <==> ids.take(n as int).contains(k) && overrides.dom().contains(k) by {
            pushed(before, last, k);
            pushed(ids.take(n - 1), last, k);
        }
    } else {
        assert(ids.take(0) =~= Seq::empty());
    }
}

proof fn pushed<T>(s: Seq<T>, p: T, q: T)
    ensures
        s.push(p).contains(q) <==> s.contains(q) || q == p,
{
    if s.contains(q) {
        let k = choose|k: int| 0 <= k < s.len() && s[k] == q;
        assert(s.push(p)[k] == q);
    }
    assert(s.push(p)[s.len() as int] == p);
}

/// A manual window holds until its end and not longer; one without an end holds.
pub proof fn windows_last_until_their_end(
    overrides: Map<Seq<char>, TimedOverride>,
    now: u64,
    k: Seq<char>,
)
    requires
        overrides.dom().contains(k),
    ensures
        ({
            let live = live_windows(overrides, now);
            &&& overrides[k].expires_at is None ==> live.dom().contains(k)
            &&& overrides[k].expires_at is Some && now < overrides[k].expires_at->0
                ==> live.dom().contains(k)
            &&& overrides[k].expires_at is Some && now >= overrides[k].expires_at->0
                ==> !live.dom().contains(k)
            &&& live.dom().contains(k) ==> live[k] == overrides[k]
        }),
{
}

/// With load policy on, and counters that went forward since the snapshot before:
/// a heavy load makes the boost scene active without an end, and an idle one
/// withdraws it. Without load policy there is no boost.
pub proof fn heavy_load_boosts(
    m: Model,
    sample: SnapshotView,
    previous: SnapshotView,
    heavy: HeavyView,
    scene: Scene,
)
    requires
        m.observed.previous_cpu_times == Some(previous),
    ensures
        ({
            let hints = load_reduced(m, Ok(sample), heavy).observed.hints;
            let forward = sample.aggregate.load_since(previous.aggregate) is Some;
            let on = m.configuration.policy.load_enabled;
            &&& on && forward && heavy is Heavy ==> hints.dom().contains(Scene::Boost)
                && hints[Scene::Boost] is None
            &&& on && forward && heavy is Idle ==> !hints.dom().contains(Scene::Boost)
            &&& !on ==> !hints.dom().contains(Scene::Boost)
            &&& on && !forward ==> !hints.dom().contains(Scene::Boost)
            &&& scene != Scene::Boost ==> (hints.dom().contains(scene)
                <==> m.observed.hints.dom().contains(scene)) && (hints.dom().contains(scene)
                ==> hints[scene] == m.observed.hints[scene])
        }),
{
}

/// The policy engine is given the profile that was asked for with the workload,
/// else the one that the rules matched for it; without a workload, none. It is
/// given the selected mode, the manual windows, the administrator's caps and the
/// thermal caps as they are.
pub proof fn policy_decides_from_the_selection(
    m: Model,
    matched: Option<ProfileId>,
    k: Seq<char>,
)
    ensures
        ({
            let input = policy_input(m, matched);
            &&& m.selection.profile is Some ==> input.app_profile == m.selection.profile
            &&& m.selection.profile is None && m.selection.workload is Some ==> input.app_profile
                == matched
            &&& m.selection.profile is None && m.selection.workload is None
                ==> input.app_profile is None
            &&& input.mode == m.selection.mode
            &&& input.generation == m.counters.generation
            &&& input.administrator_caps == m.configuration.administrator_caps
            &&& input.thermal_caps == m.caps.thermal
            &&& input.thermal_degraded <==> m.caps.thermal_state == ThermalState::Degraded
            &&& input.manual_overrides.dom().contains(k) <==> m.selection.overrides.dom().contains(k)
            &&& m.selection.overrides.dom().contains(k) ==> input.manual_overrides[k]
                == m.selection.overrides[k].limits
        }),
{
}

} // verus!
