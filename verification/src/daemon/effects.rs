//! What requests and observations bring about, stated over what goes in and what
//! comes out.

use vstd::prelude::*;
use crate::api::WorkloadRequestView;
use crate::model::{ModeSelection, ProcessIdentity, ProcessView, ProfileId, Scene, ThermalState};
use crate::platform::{InputEvent, Point, TouchContactId};
use super::barriers::resumed;
use super::commands::{mode_set, rules_persisted};
use super::guarantees::ends_after;
use super::hints::unexpired;
use super::inputs::{hinted, input_reduced};
use super::names::{mode_text, ErrorView};
use super::observers::hints_aged;
use super::rules::{with_rule, RuleView};
use super::state::Model;
use super::thermal::thermal_unavailable;
use super::workload::{clear_finished, refresh_finished, select_finished, select_started};

verus! {

/// Whether a caller may steer a process: the superuser any, others only one that
/// is wholly theirs.
pub open spec fn may_steer(caller_uid: u32, process: ProcessView) -> bool {
    caller_uid == 0 || (process.owner_control_safe && process.identity.uid == caller_uid)
}

/// A caller that may steer a process gets it as the workload, with the profile
/// that was asked for; a new choice is a switch for as long as the policy says.
/// Any other caller, and a process that was not found, change nothing.
pub proof fn selecting_makes_the_process_the_workload(
    m: Model,
    pid: u32,
    profile: Option<ProfileId>,
    caller_uid: u32,
    ticket: u64,
    result: Result<ProcessView, Seq<char>>,
    now: u64,
)
    ensures
        ({
            let after = select_finished(m, pid, profile, caller_uid, ticket, result, now);
            &&& result is Ok && may_steer(caller_uid, result->Ok_0) ==> {
                &&& after.selection.workload is Some
                &&& after.selection.workload->0.identity == result->Ok_0.identity
                &&& after.selection.profile == profile
                &&& (after.selection != m.selection ==> after.selection.workload == Some(
                    result->Ok_0,
                ) && after.gates.scheduler_dirty && after.observed.hints.dom().contains(
                    Scene::Switch,
                ) && after.observed.hints[Scene::Switch] is Some && ends_after(
                    after.observed.hints[Scene::Switch]->0,
                    now,
                    m.configuration.policy.input.switch_duration_ms,
                ))
                &&& after.outbox.last() is AnswerMutation && after.outbox.last()->AnswerMutation_result is Ok
            }
            &&& result is Ok && !may_steer(caller_uid, result->Ok_0) ==> {
                &&& after.selection == m.selection
                &&& after.outbox.last() is AnswerMutation
                &&& after.outbox.last()->AnswerMutation_result is Err
                &&& after.outbox.last()->AnswerMutation_result->Err_0 is NotAuthorized
            }
            &&& result is Err ==> {
                &&& after.selection == m.selection
                &&& after.outbox.last() is AnswerMutation
                &&& after.outbox.last()->AnswerMutation_result is Err
                &&& after.outbox.last()->AnswerMutation_result->Err_0 is NotFound
            }
            &&& after.selection.mode == m.selection.mode
            &&& after.selection.overrides == m.selection.overrides
        }),
{
}

/// A request for a workload looks the named process up, for its caller, and with
/// the profile that its mode names.
pub proof fn a_request_looks_its_process_up(
    m: Model,
    request: WorkloadRequestView,
    caller_uid: u32,
    ticket: u64,
    profile: ProfileId,
)
    requires
        request.pid != 0,
        vstd::utf8::encode_utf8(request.reason).len() <= 256,
        match m.work.identity_in_flight {
            Some(r) => !r.is_control_request,
            None => true,
        },
        request.mode.len() == 0 || request.mode == mode_text(ModeSelection::Forced(profile)),
    ensures
        ({
            let after = select_started(m, request, caller_uid, ticket);
            &&& after.work.identity_in_flight is Some
            &&& after.work.identity_in_flight->0.is_control_request
            &&& after.outbox.last() is ReadIdentity
            &&& after.outbox.last()->ReadIdentity_pid == request.pid
            &&& after.outbox.last()->ReadIdentity_id == after.work.identity_in_flight->0.id
            &&& after.outbox.last()->purpose is Select
            &&& after.outbox.last()->purpose->Select_pid == request.pid
            &&& after.outbox.last()->purpose->Select_caller_uid == caller_uid
            &&& after.outbox.last()->purpose->Select_ticket == ticket
            &&& request.mode.len() == 0 ==> after.outbox.last()->purpose->requested_profile is None
            &&& request.mode.len() > 0 ==> after.outbox.last()->purpose->requested_profile == Some(
                profile,
            )
        }),
{
    super::names::mode_reads_back(ModeSelection::Forced(profile));
    reveal_strlit("auto");
    reveal_strlit("powersave");
    reveal_strlit("balance");
    reveal_strlit("performance");
    assert("auto"@.len() == 4 && "balance"@.len() == 7);
    assert("powersave"@.len() == 9 && "performance"@.len() == 11);
}

/// A caller that may steer the workload clears it, and its profile with it, where
/// it is still the process that was meant. In every other case it stays.
pub proof fn clearing_ends_the_workload(
    m: Model,
    expected: ProcessIdentity,
    caller_uid: u32,
    ticket: u64,
    result: Result<ProcessView, Seq<char>>,
)
    ensures
        ({
            let after = clear_finished(m, expected, caller_uid, ticket, result);
            let meant = m.selection.workload is Some && m.selection.workload->0.identity == expected
                && result is Ok && result->Ok_0.identity == expected;
            &&& meant && may_steer(caller_uid, result->Ok_0) ==> {
                &&& after.selection.workload is None
                &&& after.selection.profile is None
                &&& after.gates.scheduler_dirty
            }
            &&& !meant || !may_steer(caller_uid, result->Ok_0) ==> after.selection == m.selection
            &&& after.selection.mode == m.selection.mode
            &&& after.selection.overrides == m.selection.overrides
        }),
{
}

/// A look at the workload keeps it while the same process runs, with what is
/// newly known of it, and ends it where the process is gone or another one.
pub proof fn a_vanished_workload_is_given_up(
    m: Model,
    expected: ProcessIdentity,
    result: Result<ProcessView, Seq<char>>,
)
    ensures
        ({
            let after = refresh_finished(m, expected, result);
            let active = m.selection.workload is Some && m.selection.workload->0.identity
                == expected;
            &&& active && result is Ok && result->Ok_0.identity == expected ==> {
                &&& after.selection.workload == Some(result->Ok_0)
                &&& after.selection.profile == m.selection.profile
            }
            &&& active && (result is Err || result->Ok_0.identity != expected) ==> {
                &&& after.selection.workload is None
                &&& after.selection.profile is None
            }
            &&& !active ==> after == m
        }),
{
}

/// A mode is selected by its name, an unknown name selects nothing, and nothing
/// else of the selection changes.
pub proof fn a_mode_is_selected_by_its_name(m: Model, value: Seq<char>, ticket: u64)
    ensures
        ({
            let after = mode_set(m, value, ticket);
            &&& value == "auto"@ ==> after.selection.mode == ModeSelection::Auto
            &&& value == "powersave"@ ==> after.selection.mode == ModeSelection::Forced(
                ProfileId::Powersave,
            )
            &&& value == "balance"@ ==> after.selection.mode == ModeSelection::Forced(
                ProfileId::Balance,
            )
            &&& value == "performance"@ ==> after.selection.mode == ModeSelection::Forced(
                ProfileId::Performance,
            )
            &&& value != "auto"@ && value != "powersave"@ && value != "balance"@ && value
                != "performance"@ ==> after.selection.mode == m.selection.mode
                && after.outbox.last() is AnswerMutation
                && after.outbox.last()->AnswerMutation_result is Err
            &&& after.selection.workload == m.selection.workload
            &&& after.selection.profile == m.selection.profile
            &&& after.selection.overrides == m.selection.overrides
            &&& after.selection.mode != m.selection.mode && m.counters.generation < u64::MAX
                ==> after.counters.generation == m.counters.generation + 1
        }),
{
    reveal_strlit("auto");
    reveal_strlit("powersave");
    reveal_strlit("balance");
    reveal_strlit("performance");
    assert("auto"@.len() == 4 && "balance"@.len() == 7);
    assert("powersave"@.len() == 9 && "performance"@.len() == 11);
}

/// Whether a scene is active until so long after a time; without an end where the
/// duration is nothing.
pub open spec fn active_for(m: Model, scene: Scene, now: u64, duration: u64) -> bool {
    &&& m.observed.hints.dom().contains(scene)
    &&& duration == 0 ==> m.observed.hints[scene] is None
    &&& duration > 0 ==> m.observed.hints[scene] is Some && ends_after(
        m.observed.hints[scene]->0,
        now,
        duration,
    )
}

/// Input makes scenes: the first touch one that lasts as long as any contact, the
/// end of the last touch a trigger, a swipe a gesture, each for as long as the
/// policy says. Contacts are known one by one.
pub proof fn input_makes_scenes(
    m: Model,
    contact: TouchContactId,
    from: Point,
    to: Point,
    now: u64,
)
    ensures
        ({
            let none = Set::<TouchContactId>::empty();
            let policy = m.configuration.policy.input;
            let before = m.observed.contacts;
            let down = input_reduced(m, InputEvent::TouchDown { contact, at: from }, now);
            let up = input_reduced(m, InputEvent::TouchUp { contact, at: to }, now);
            let swipe = input_reduced(m, InputEvent::Gesture { contact, from, to }, now);
            &&& down.observed.contacts == before.insert(contact)
            &&& before == none ==> down.observed.hints.dom().contains(Scene::Touch)
                && down.observed.hints[Scene::Touch] is None
            &&& up.observed.contacts == before.remove(contact)
            &&& before == none.insert(contact) ==> !up.observed.hints.dom().contains(Scene::Touch)
                && active_for(up, Scene::Trigger, now, policy.trigger_duration_ms)
            &&& before != none.insert(contact) ==> up.observed.hints == m.observed.hints
            &&& active_for(swipe, Scene::Gesture, now, policy.gesture_duration_ms)
            &&& swipe.observed.contacts == before
        }),
{
}

/// A hint from outside makes its scene active for as long as the policy says.
pub proof fn hints_last_as_the_policy_says(m: Model, now: u64, then_barriers: bool)
    ensures
        ({
            let policy = m.configuration.policy.input;
            &&& active_for(
                hinted(m, Scene::Trigger, now, then_barriers),
                Scene::Trigger,
                now,
                policy.trigger_duration_ms,
            )
            &&& active_for(
                hinted(m, Scene::Gesture, now, then_barriers),
                Scene::Gesture,
                now,
                policy.gesture_duration_ms,
            )
            &&& active_for(
                hinted(m, Scene::Switch, now, then_barriers),
                Scene::Switch,
                now,
                policy.switch_duration_ms,
            )
            &&& active_for(
                hinted(m, Scene::Wake, now, then_barriers),
                Scene::Wake,
                now,
                policy.wake_duration_ms,
            )
            &&& active_for(hinted(m, Scene::Touch, now, then_barriers), Scene::Touch, now, 0)
            &&& active_for(hinted(m, Scene::Boost, now, then_barriers), Scene::Boost, now, 0)
            &&& hinted(m, Scene::Idle, now, then_barriers) == m
        }),
{
}

/// A scene is active until its end and not longer, one without an end until it is
/// withdrawn; a tick drops exactly those that ended.
pub proof fn scenes_last_until_their_end(m: Model, scene: Scene, now: u64)
    requires
        m.observed.hints.dom().contains(scene),
    ensures
        ({
            let end = m.observed.hints[scene];
            let after = hints_aged(m, now).observed.hints;
            &&& end is None ==> after.dom().contains(scene)
            &&& end is Some && now < end->0 ==> after.dom().contains(scene)
            &&& end is Some && now >= end->0 ==> !after.dom().contains(scene)
            &&& after.dom().contains(scene) ==> after[scene] == end
            &&& after == unexpired(m.observed.hints, now)
        }),
{
}

/// Waking up ends the suspension, trusts no sensor until it shows itself again,
/// and is a scene for as long as the policy says.
pub proof fn waking_starts_over(m: Model, now: u64, then_barriers: bool)
    ensures
        ({
            let after = resumed(m, now, then_barriers);
            &&& !after.gates.suspended
            &&& after.caps.thermal_state == ThermalState::Degraded
            &&& after.gates.scheduler_dirty
            &&& active_for(after, Scene::Wake, now, m.configuration.policy.input.wake_duration_ms)
        }),
{
    reveal(resumed);
    reveal(thermal_unavailable);
    let awake = Model { gates: super::state::Gates { suspended: false, ..m.gates }, ..m };
    super::reload::caps_update_keeps(thermal_unavailable(awake, now));
}

/// A stored rule takes the place of the one with its name, or joins the others,
/// which all stay.
pub proof fn storing_a_rule_keeps_the_others(
    rules: Seq<RuleView>,
    rule: RuleView,
    other: RuleView,
)
    ensures
        with_rule(rules, rule).contains(rule),
        other.id != rule.id ==> (with_rule(rules, rule).contains(other) <==> rules.contains(other)),
        (forall|i: int| 0 <= i < rules.len() ==> (#[trigger] rules[i]).id != rule.id)
            ==> with_rule(rules, rule).len() == rules.len() + 1,
        (exists|i: int| 0 <= i < rules.len() && (#[trigger] rules[i]).id == rule.id) ==> with_rule(
            rules,
            rule,
        ).len() == rules.len(),
{
    super::rules::stored_rule_is_kept(rules, rule);
    position_is_of_the_name(rules, rule.id);
    let next = with_rule(rules, rule);
    match super::rules::rule_position(rules, rule.id) {
        Some(at) => {
            if rules.contains(other) {
                let k = choose|k: int| 0 <= k < rules.len() && rules[k] == other;
                if other.id != rule.id {
                    assert(next[k] == other);
                }
            }
            if next.contains(other) {
                let k = choose|k: int| 0 <= k < next.len() && next[k] == other;
                if other.id != rule.id {
                    assert(rules[k] == other);
                }
            }
        },
        None => {
            if rules.contains(other) {
                let k = choose|k: int| 0 <= k < rules.len() && rules[k] == other;
                assert(next[k] == other);
            }
            if next.contains(other) && other.id != rule.id {
                let k = choose|k: int| 0 <= k < next.len() && next[k] == other;
                assert(rules[k] == other);
            }
        },
    }
}

proof fn position_is_of_the_name(rules: Seq<RuleView>, id: Seq<char>)
    ensures
        match super::rules::rule_position(rules, id) {
            Some(i) => 0 <= i < rules.len() && rules[i].id == id,
            None => forall|i: int| 0 <= i < rules.len() ==> (#[trigger] rules[i]).id != id,
        },
    decreases rules.len(),
{
    if rules.len() > 0 {
        position_is_of_the_name(rules.drop_last(), id);
        if super::rules::rule_position(rules, id) is None {
            assert forall|i: int| 0 <= i < rules.len() implies (#[trigger] rules[i]).id != id by {
                if i < rules.len() - 1 {
                    assert(rules.drop_last()[i] == rules[i]);
                }
            }
        }
    }
}

/// Rules are in force once they are stored, and not where storing failed.
pub proof fn stored_rules_are_in_force(
    m: Model,
    rules: Seq<RuleView>,
    changed_id: Seq<char>,
    message: Seq<char>,
    ticket: u64,
    result: Result<(), ErrorView>,
)
    ensures
        ({
            let after = rules_persisted(m, rules, changed_id, message, ticket, result);
            &&& result is Ok ==> after.configuration.apps == rules
            &&& result is Err ==> after.configuration == m.configuration
            &&& !after.work.app_persist_in_flight
            &&& after.configuration.targets == m.configuration.targets
        }),
{
}

} // verus!
