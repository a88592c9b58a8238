//! What requests are answered and what they set going, stated over what goes in
//! and what comes out.

use vstd::prelude::*;
use vstd::utf8::encode_utf8;
use crate::api::{AppRuleView, OverrideView, WorkloadRequestView};
use crate::model::{valid_id, ModeSelection, ProcessIdentity, ProcessView, ProfileId};
use super::commands::{commanded, mode_set, rule_removed, rule_set, rules_persisted, CommandView};
use super::names::ErrorView;
use super::overrides::{ids_cleared, mutation_error, overrides_cleared, overrides_set, set_error};
use super::reconcile::{
    evaluated, generation_noted, needs_frequencies, outcome_recorded, reconcile_finished,
    reconciled, OutcomeView,
};
use super::rules::{stored_rule, with_rule, without_rule, RuleView};
use super::state::{ActionView, Model, PlanView, ReportView};
use super::workload::{clear_finished, clear_started, request_error, select_finished};

verus! {

/// Nothing is changed while the system sleeps, before mutation is activated, after
/// control is closed, while changes are undone or wait to be, while a
/// configuration or safety caps wait, or without an actuator that may write.
pub proof fn gates_hold_changes_back(m: Model, now: u64)
    requires
        m.gates.suspended || !m.gates.mutations_activated || !m.gates.accepting_control
            || m.work.restore_requested || m.work.restore_in_flight is Some
            || m.plans.reload is Some || m.work.safety_update_in_flight is Some
            || m.caps.pending is Some || m.gates.actuator is None || m.gates.actuator_read_only,
    ensures
        reconciled(m, now).outbox == m.outbox,
        reconciled(m, now).work == m.work,
        reconciled(m, now).plans == m.plans,
{
}

/// A new plan is wanted from now on, with the tasks of the plan before it until
/// they are planned anew. A failed evaluation is reported and leaves the plan.
pub proof fn a_new_plan_is_wanted(m: Model, plan: PlanView, error: Seq<char>, now: u64)
    ensures
        ({
            let after = evaluated(m, Ok(plan), now);
            let failed = evaluated(m, Err(error), now);
            &&& after.plans.desired is Some
            &&& after.plans.desired->0.generation == plan.generation
            &&& after.plans.desired->0.frequencies == plan.frequencies
            &&& after.plans.desired->0.effective_profile == plan.effective_profile
            &&& after.plans.desired->0.dominant_scene == plan.dominant_scene
            &&& m.plans.desired is Some ==> after.plans.desired->0.tasks
                == m.plans.desired->0.tasks
            &&& m.plans.desired is None ==> after.plans.desired->0.tasks == plan.tasks
            &&& after.plans.applied == m.plans.applied
            &&& !after.issues.dom().contains("policy.evaluate"@)
            &&& failed.plans == m.plans
            &&& failed.outbox == m.outbox
            &&& failed.issues.dom().contains("policy.evaluate"@)
            &&& failed.issues["policy.evaluate"@].message == error
        }),
{
}

/// Tasks that were put in force are the ones that are wanted, and nothing is left
/// to do on them, unless more was asked for meanwhile or they failed.
pub proof fn planned_tasks_are_taken_over(m: Model, o: OutcomeView, now: u64, report: ReportView)
    requires
        !m.gates.suspended,
        m.plans.desired is Some,
    ensures
        ({
            let after = outcome_recorded(m, Ok(o), now, report);
            let done = o.scheduler_attempted && o.scheduler_error is None
                && !m.work.reconcile_pending;
            &&& after.plans.desired is Some
            &&& done ==> after.plans.desired->0.tasks == o.desired_tasks
                && !after.gates.scheduler_dirty
            &&& !done ==> after.plans.desired->0.tasks == m.plans.desired->0.tasks
                && after.gates.scheduler_dirty == m.gates.scheduler_dirty
            &&& after.plans.desired->0.frequencies == m.plans.desired->0.frequencies
            &&& !after.work.reconcile_pending
            &&& !after.work.inflight_frequency
            &&& !after.work.inflight_scheduler
        }),
{
    reveal(outcome_recorded);
}

/// Frequencies that were put in force and read back count as seen, those that were
/// given up do not, and the others stay.
pub proof fn changed_frequencies_count_as_seen(
    m: Model,
    o: OutcomeView,
    now: u64,
    report: ReportView,
    k: Seq<char>,
)
    requires
        !m.gates.suspended,
        o.frequency_attempted,
        o.frequency_error is None,
    ensures
        ({
            let seen = outcome_recorded(m, Ok(o), now, report).observed;
            let mine = o.applied.frequencies.dom().contains(k);
            let was = m.plans.applied.frequencies.dom().contains(k);
            &&& mine ==> seen.frequencies.dom().contains(k) && seen.frequencies[k].limits
                == o.applied.frequencies[k]
            &&& !mine && was ==> !seen.frequencies.dom().contains(k)
            &&& !mine && !was ==> (seen.frequencies.dom().contains(k)
                <==> m.observed.frequencies.dom().contains(k))
            &&& !mine && !was && seen.frequencies.dom().contains(k) ==> seen.frequencies[k]
                == m.observed.frequencies[k]
            &&& seen.last_frequency_success == Some(now)
        }),
{
    reveal(outcome_recorded);
}

/// The generation in force is that of the plan once nothing is left to do, and
/// stays what it was until then.
pub proof fn a_settled_plan_has_its_generation(m: Model)
    ensures
        ({
            let settled = !m.gates.suspended && !m.gates.scheduler_dirty
                && m.plans.desired is Some && !needs_frequencies(m);
            let after = generation_noted(m).plans.applied;
            &&& settled ==> after.generation == m.plans.desired->0.generation
            &&& !settled ==> after.generation == m.plans.applied.generation
            &&& after.frequencies == m.plans.applied.frequencies
            &&& after.tasks == m.plans.applied.tasks
        }),
{
}

/// What waited for a reconciliation goes on after it: changes are undone first if
/// that was asked for; else the plan is evaluated anew where more was asked for.
pub proof fn what_waited_goes_on(
    m: Model,
    result: Result<OutcomeView, Seq<char>>,
    now: u64,
    report: ReportView,
)
    requires
        m.work.restore_in_flight is None,
    ensures
        ({
            let after = reconcile_finished(m, result, now, report);
            &&& m.work.restore_requested ==> after.work.restore_in_flight is Some
                && !after.work.restore_requested && after.outbox.last() == (
            ActionView::StartRestore { id: after.work.restore_in_flight->0 })
            &&& !m.work.restore_requested && m.plans.reload is None && m.work.reconcile_pending
                ==> after.outbox.last() == (ActionView::Evaluate { then_barriers: false })
        }),
{
    reveal(outcome_recorded);
}

/// A workload is refused exactly if it names no process, its reason is too long,
/// its mode is unknown, or another process is being looked up for a caller.
pub proof fn unsound_workloads_are_refused(m: Model, request: WorkloadRequestView)
    ensures
        request_error(m, request) is Some <==> {
            ||| request.pid == 0
            ||| encode_utf8(request.reason).len() > 256
            ||| request.mode.len() > 0 && request.mode != "powersave"@ && request.mode
                != "balance"@ && request.mode != "performance"@
            ||| m.work.identity_in_flight is Some
                && m.work.identity_in_flight->0.is_control_request
        },
{
}

/// Clearing the workload looks it up first, for its caller; where there is none,
/// nothing is looked up and the caller is told so.
pub proof fn clearing_looks_the_workload_up(m: Model, caller_uid: u32, ticket: u64)
    ensures
        ({
            let after = clear_started(m, caller_uid, ticket);
            let busy = m.work.identity_in_flight is Some
                && m.work.identity_in_flight->0.is_control_request;
            &&& m.selection.workload is None ==> after.work == m.work && after.outbox.last() is AnswerMutation
                && after.outbox.last()->AnswerMutation_ticket == ticket
                && after.outbox.last()->AnswerMutation_result is Ok
            &&& m.selection.workload is Some && busy ==> after.work == m.work
                && after.outbox.last() is AnswerMutation
                && after.outbox.last()->AnswerMutation_ticket == ticket
                && after.outbox.last()->AnswerMutation_result is Err
            &&& m.selection.workload is Some && !busy ==> {
                &&& after.outbox.last() is ReadIdentity
                &&& after.outbox.last()->ReadIdentity_pid == m.selection.workload->0.identity.pid
                &&& after.outbox.last()->purpose is Clear
                &&& after.outbox.last()->purpose->Clear_expected
                    == m.selection.workload->0.identity
                &&& after.outbox.last()->purpose->Clear_caller_uid == caller_uid
                &&& after.outbox.last()->purpose->Clear_ticket == ticket
            }
            &&& after.selection == m.selection
        }),
{
}

/// Mutation is refused exactly while there is no actuator that may write.
pub proof fn mutation_needs_an_actuator(m: Model)
    ensures
        mutation_error(m) is Some <==> m.gates.actuator is None || m.gates.actuator_read_only,
        mutation_error(m) is Some ==> mutation_error(m)->0 is Degraded,
{
}

/// Clearing without names clears every window; a name that is none is refused.
pub proof fn clearing_without_names_clears_all(
    m: Model,
    requested: Seq<Seq<char>>,
    all: Seq<Seq<char>>,
    ticket: u64,
    i: int,
)
    requires
        m.gates.actuator is Some,
        !m.gates.actuator_read_only,
    ensures
        ({
            let after = overrides_cleared(m, requested, all, ticket);
            &&& requested.len() == 0 ==> after == ids_cleared(m, all, ticket)
            &&& 0 <= i < requested.len() && !valid_id(requested[i]) ==> after.selection
                == m.selection && after.outbox.last() is AnswerMutation
                && after.outbox.last()->AnswerMutation_result is Err
            &&& requested.len() > 0 && (forall|j: int|
                0 <= j < requested.len() ==> valid_id(#[trigger] requested[j])) ==> after
                == ids_cleared(m, requested, ticket)
        }),
{
}

/// Whether a caller is answered last, with the generation that is then in force.
pub open spec fn answered_with_generation(before: Model, after: Model, ticket: u64) -> bool {
    &&& after.outbox.len() > before.outbox.len()
    &&& after.outbox.last() is AnswerMutation
    &&& after.outbox.last()->AnswerMutation_ticket == ticket
    &&& after.outbox.last()->AnswerMutation_result is Ok
        ==> after.outbox.last()->AnswerMutation_result->Ok_0.generation
        == after.counters.generation
}

/// Every mutation answers its caller with the generation that it led to.
pub proof fn receipts_carry_the_generation(
    m: Model,
    ticket: u64,
    now: u64,
    value: Seq<char>,
    requests: Seq<OverrideView>,
    ids: Seq<Seq<char>>,
    pid: u32,
    profile: Option<ProfileId>,
    caller_uid: u32,
    result: Result<ProcessView, Seq<char>>,
    expected: ProcessIdentity,
    rules: Seq<RuleView>,
    stored: Result<(), ErrorView>,
)
    ensures
        answered_with_generation(m, mode_set(m, value, ticket), ticket),
        answered_with_generation(m, overrides_set(m, requests, ticket, now), ticket),
        answered_with_generation(m, ids_cleared(m, ids, ticket), ticket),
        answered_with_generation(
            m,
            select_finished(m, pid, profile, caller_uid, ticket, result, now),
            ticket,
        ),
        answered_with_generation(
            m,
            clear_finished(m, expected, caller_uid, ticket, result),
            ticket,
        ),
        answered_with_generation(
            m,
            rules_persisted(m, rules, value, value, ticket, stored),
            ticket,
        ),
{
}

/// An accepted batch names its targets in its receipt, has the plan evaluated
/// anew, and moves the generation on.
pub proof fn an_accepted_batch_is_evaluated(
    m: Model,
    requests: Seq<OverrideView>,
    ticket: u64,
    now: u64,
    i: int,
)
    requires
        set_error(m, requests) is None,
        0 <= i < requests.len(),
        m.counters.generation < u64::MAX,
    ensures
        ({
            let after = overrides_set(m, requests, ticket, now);
            let receipt = after.outbox.last()->AnswerMutation_result;
            &&& after.counters.generation == m.counters.generation + 1
            &&& receipt is Ok
            &&& receipt->Ok_0.changed_ids.len() == requests.len()
            &&& receipt->Ok_0.changed_ids[i] == requests[i].target_id
            &&& after.outbox[m.outbox.len() as int] == (ActionView::Evaluate {
                then_barriers: false,
            })
            &&& after.selection.mode == m.selection.mode
            &&& after.selection.workload == m.selection.workload
            &&& after.selection.profile == m.selection.profile
        }),
{
}

/// A sound rule is stored beside the others, for its caller; an unsound one, and
/// any while the configuration is on its way, is refused.
pub proof fn a_sound_rule_is_stored(m: Model, rule: AppRuleView, id: Seq<char>, ticket: u64)
    ensures
        ({
            let busy = m.work.app_persist_in_flight || m.work.reload_in_flight;
            let set = rule_set(m, rule, ticket);
            let removed = rule_removed(m, id, ticket);
            let known = exists|i: int|
                0 <= i < m.configuration.apps.len() && (#[trigger] m.configuration.apps[i]).id
                    == id;
            &&& !busy && stored_rule(rule) is Ok ==> set.work.app_persist_in_flight
                && set.outbox.last() is PersistRules && set.outbox.last()->PersistRules_ticket
                == ticket && set.outbox.last()->rules == with_rule(
                m.configuration.apps,
                stored_rule(rule)->Ok_0,
            )
            &&& busy || stored_rule(rule) is Err ==> set.work == m.work
                && set.outbox.last() is AnswerMutation
                && set.outbox.last()->AnswerMutation_ticket == ticket
                && set.outbox.last()->AnswerMutation_result is Err
            &&& !busy && known ==> removed.work.app_persist_in_flight
                && removed.outbox.last() is PersistRules
                && removed.outbox.last()->PersistRules_ticket == ticket
                && removed.outbox.last()->rules == without_rule(m.configuration.apps, id)
            &&& busy || !known ==> removed.work == m.work && removed.outbox.last() is AnswerMutation
                && removed.outbox.last()->AnswerMutation_ticket == ticket
                && removed.outbox.last()->AnswerMutation_result is Err
        }),
{
}

/// A rule is stored as it was given, for the whole system, and only if it says
/// what it matches and names a profile.
pub proof fn a_rule_is_stored_as_given(rule: AppRuleView)
    ensures
        stored_rule(rule) is Ok <==> {
            &&& rule.owner_uid == 0xffff_ffffu32
            &&& rule.executable is Some || rule.comm_regex is Some
            &&& rule.mode == "powersave"@ || rule.mode == "balance"@ || rule.mode == "performance"@
        },
        stored_rule(rule) is Ok ==> {
            let s = stored_rule(rule)->Ok_0;
            &&& s.id == rule.id
            &&& s.enabled == rule.enabled
            &&& s.priority == rule.priority
            &&& s.executable == rule.executable
            &&& s.comm_regex == rule.comm_regex
            &&& s.desktop_id is None
            &&& rule.mode == "powersave"@ ==> s.profile == ProfileId::Powersave
            &&& rule.mode == "balance"@ ==> s.profile == ProfileId::Balance
            &&& rule.mode == "performance"@ ==> s.profile == ProfileId::Performance
        },
{
    reveal_strlit("powersave");
    reveal_strlit("balance");
    reveal_strlit("performance");
    assert("powersave"@.len() == 9 && "balance"@.len() == 7 && "performance"@.len() == 11);
}

/// Commands do what they name while control is open, each for its own caller.
pub proof fn commands_do_what_they_name(
    m: Model,
    ticket: u64,
    rule: AppRuleView,
    request: WorkloadRequestView,
    caller_uid: u32,
    all: Seq<Seq<char>>,
    now: u64,
    report: ReportView,
)
    requires
        m.gates.accepting_control,
        !m.work.app_persist_in_flight,
        !m.work.reload_in_flight,
        m.work.identity_in_flight is None,
    ensures
        ({
            let mode = commanded(
                m,
                CommandView::SetMode { mode: "performance"@, ticket },
                all,
                now,
                report,
            );
            let reload = commanded(m, CommandView::Reload { ticket }, all, now, report);
            let active = commanded(m, CommandView::Activate { ticket }, all, now, report);
            let closing = commanded(m, CommandView::BeginShutdown { ticket }, all, now, report);
            let stop = commanded(m, CommandView::Stop { ticket }, all, now, report);
            let stored = commanded(m, CommandView::SetAppRule { rule, ticket }, all, now, report);
            let selected = commanded(
                m,
                CommandView::SetActiveWorkload { request, caller_uid, ticket },
                all,
                now,
                report,
            );
            &&& mode.selection.mode == ModeSelection::Forced(ProfileId::Performance)
            &&& reload.outbox.last() == (ActionView::LoadConfiguration { ticket })
            &&& active.gates.mutations_activated
            &&& !closing.gates.accepting_control && closing.gates.stop_requested
                == m.gates.stop_requested
            &&& !stop.gates.accepting_control && (stop.gates.stop_requested
                || stop.waiters.stop.contains(ticket))
            &&& stored_rule(rule) is Ok ==> stored.outbox.last() is PersistRules
                && stored.outbox.last()->PersistRules_ticket == ticket
            &&& request_error(m, request) is None ==> selected.outbox.last() is ReadIdentity
                && selected.outbox.last()->ReadIdentity_pid == request.pid
                && selected.outbox.last()->purpose is Select
                && selected.outbox.last()->purpose->Select_caller_uid == caller_uid
        }),
{
    reveal_strlit("powersave");
    reveal_strlit("balance");
    reveal_strlit("performance");
    reveal_strlit("auto");
    assert("powersave"@.len() == 9 && "balance"@.len() == 7 && "performance"@.len() == 11
        && "auto"@.len() == 4);
    super::transitions::stopping_undoes_every_change(m, ticket, now, report);
}

/// Once control is closed every mutation is refused, its own caller told.
pub proof fn closed_control_refuses_each_caller(
    m: Model,
    command: CommandView,
    all: Seq<Seq<char>>,
    now: u64,
    report: ReportView,
)
    requires
        !m.gates.accepting_control,
        !(command is BeginShutdown),
        !(command is Stop),
    ensures
        ({
            let after = commanded(m, command, all, now, report);
            &&& after == (Model { outbox: after.outbox, ..m })
            &&& after.outbox.len() == m.outbox.len() + 1
            &&& command is SetMode ==> after.outbox.last() is AnswerMutation
                && after.outbox.last()->AnswerMutation_ticket == command->SetMode_ticket
                && after.outbox.last()->AnswerMutation_result is Err
            &&& command is SetFrequencyOverrides ==> after.outbox.last() is AnswerMutation
                && after.outbox.last()->AnswerMutation_ticket
                == command->SetFrequencyOverrides_ticket
                && after.outbox.last()->AnswerMutation_result is Err
            &&& command is SetActiveWorkload ==> after.outbox.last() is AnswerMutation
                && after.outbox.last()->AnswerMutation_ticket == command->SetActiveWorkload_ticket
                && after.outbox.last()->AnswerMutation_result is Err
            &&& command is Reload ==> after.outbox.last() is AnswerReload
                && after.outbox.last()->AnswerReload_ticket == command->Reload_ticket
                && after.outbox.last()->AnswerReload_result is Err
        }),
{
}

} // verus!
