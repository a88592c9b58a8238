//! What the desktop client asks for and shows, stated over what goes in and what
//! comes out.

use vstd::prelude::*;
use crate::api::{
    ActiveWorkloadView, AppRule, AppRuleView, Capabilities, CapabilityView, ClientError,
    DaemonStatus, FrequencyOverride, FrequencyStatusView, RunningWorkload, TelemetrySnapshot,
    WorkloadRequest,
};
use crate::number::{decimal_text, parsed_unsigned};
use super::client::{
    disposition, doubled_pause, pause_after, pauses_are_bounded, plans, refreshes, retry_pause, signal_refreshes, session_end, Call, ClientCommand,
    ConnectionState, ErrorDisposition, Plan, Refresh, RequestErrorKind, SessionSignal, UiEvent,
};
use crate::text::trimmed;
use super::format::{
    clear_target, draft_bounds, frequency_text, generated_rule_ids_are_new, load_text,
    parsed_workload, rule_of, status_text, WorkloadClearTarget,
};
use super::i18n::{translation, Language};
use super::session::{after_event, event_actions, repainted, ActionView, UiState};
use super::view_model::{offered_choices, override_fault, override_of, status_of};

verus! {

/// An override asks for the chosen window of its target and has no end. It is
/// refused exactly if the target takes none, the window is reversed, leaves the
/// hardware, or is not among the advertised frequencies.
pub proof fn an_override_asks_for_its_window(t: CapabilityView, low: u64, high: u64)
    ensures
        override_of(t, low, high).target_id == t.id,
        override_of(t, low, high).min_hz == low,
        override_of(t, low, high).max_hz == high,
        override_of(t, low, high).ttl_ms == 0,
        override_fault(t, low, high) is None <==> {
            &&& t.can_override
            &&& t.minimum_hz <= low <= high <= t.maximum_hz
            &&& t.available_hz.len() == 0 || (t.available_hz.contains(low)
                && t.available_hz.contains(high))
        },
{
}

/// The frequencies to choose from are the ends of the hardware window and the
/// advertised ones inside it.
pub proof fn choices_are_the_advertised_ones(t: CapabilityView, f: u64)
    requires
        0 < t.minimum_hz <= t.maximum_hz,
    ensures
        offered_choices(t).contains(t.minimum_hz),
        offered_choices(t).contains(t.maximum_hz),
        t.available_hz.contains(f) && t.minimum_hz <= f <= t.maximum_hz ==> offered_choices(
            t,
        ).contains(f),
        offered_choices(t).contains(f) ==> t.minimum_hz <= f <= t.maximum_hz && (
        t.available_hz.contains(f) || f == t.minimum_hz || f == t.maximum_hz),
{
}

/// The choice starts at the override that is active, else at the hardware window.
pub proof fn choices_start_where_they_are(t: CapabilityView, s: FrequencyStatusView)
    ensures
        s.override_active && s.desired_available ==> draft_bounds(t, Some(s)) == (
            s.desired_min_hz,
            s.desired_max_hz,
        ),
        !s.override_active ==> draft_bounds(t, Some(s)) == (t.minimum_hz, t.maximum_hz),
        draft_bounds(t, None) == (t.minimum_hz, t.maximum_hz),
{
}

/// The status of a target is one of its own, and there is one if any is given.
pub proof fn a_target_has_its_own_status(
    all: Seq<FrequencyStatusView>,
    id: Seq<char>,
    n: nat,
    i: int,
)
    requires
        0 <= i < n <= all.len(),
    ensures
        status_of(all, id, n) is Some ==> status_of(all, id, n)->0.target_id == id,
        all[i].target_id == id ==> status_of(all, id, n) is Some,
    decreases n,
{
    if n > 1 && all[n - 1].target_id != id {
        if i < n - 1 {
            a_target_has_its_own_status(all, id, (n - 1) as nat, i);
        } else {
            a_target_has_its_own_status(all, id, (n - 1) as nat, 0);
        }
    } else if n == 1 {
        assert(status_of(all, id, 0) is None);
    }
}

/// Each command makes its own call, with what it carries.
pub proof fn commands_make_their_own_calls(
    mode: String,
    id: String,
    rule: AppRule,
    request: FrequencyOverride,
    workload: WorkloadRequest,
    plan: Plan,
)
    ensures
        plans(ClientCommand::SetMode(mode), plan) ==> plan is Daemon && plan->call == Call::SetMode(
            mode,
        ),
        plans(ClientCommand::SetFrequency(request), plan) ==> plan is Daemon && plan->call
            is SetFrequencyOverrides && plan->call->SetFrequencyOverrides_0@ == seq![request],
        plans(ClientCommand::ClearFrequency(id), plan) ==> plan is Daemon && plan->call
            is ClearFrequencyOverrides && plan->call->ClearFrequencyOverrides_0@ == seq![id],
        plans(ClientCommand::SetWorkload(workload), plan) ==> plan is Daemon && plan->call
            == Call::SetActiveWorkload(workload) && plan->refresh_workloads,
        plans(ClientCommand::ClearWorkload(WorkloadClearTarget::Explicit), plan) ==> plan is Daemon
            && plan->call is ClearActiveWorkload && plan->refresh_workloads,
        plans(ClientCommand::ClearWorkload(WorkloadClearTarget::Focus), plan) ==> plan is Daemon
            && plan->call is ClearForegroundProcess,
        plans(ClientCommand::SetAppRule(rule), plan) ==> plan is Daemon && plan->call
            == Call::SetAppRule(rule) && plan->refresh_rules,
        plans(ClientCommand::RemoveAppRule(id), plan) ==> plan is Daemon && plan->call
            == Call::RemoveAppRule(id) && plan->refresh_rules,
        plans(ClientCommand::ReloadConfig, plan) ==> plan is Daemon && plan->call is ReloadConfig,
        plans(ClientCommand::EnableAndStartService, plan) ==> plan is Service,
{
}

/// After a call the status is read again, and the rules or the workloads where
/// they were changed.
pub proof fn what_changed_is_read_again(rules: bool, workloads: bool)
    ensures
        refreshes(rules, workloads).contains(Refresh::Status),
        refreshes(rules, workloads).contains(Refresh::AppRules) <==> rules,
        refreshes(rules, workloads).contains(Refresh::RunningWorkloads) <==> workloads,
{
    let r = refreshes(rules, workloads);
    assert(r[0] == Refresh::Status);
    if rules {
        assert(r[1] == Refresh::AppRules);
    }
    if workloads {
        assert(r[r.len() - 1] == Refresh::RunningWorkloads);
    }
}

/// A signal has what it tells of read again, and only the end of a stream or of
/// the daemon ends the session.
pub proof fn signals_have_their_news_read(ended: bool)
    ensures
        signal_refreshes(SessionSignal::State { ended }).contains(Refresh::Status),
        signal_refreshes(SessionSignal::Health { ended }).contains(Refresh::Status),
        signal_refreshes(SessionSignal::Mode { ended }).contains(Refresh::Status),
        signal_refreshes(SessionSignal::Capabilities { ended }).contains(Refresh::Capabilities),
        signal_refreshes(SessionSignal::Workloads { ended }).contains(Refresh::RunningWorkloads),
        session_end(SessionSignal::State { ended }) is Some <==> ended,
        session_end(SessionSignal::Health { ended }) is Some <==> ended,
        session_end(SessionSignal::Mode { ended }) is Some <==> ended,
        session_end(SessionSignal::Capabilities { ended }) is Some <==> ended,
        session_end(SessionSignal::Workloads { ended }) is Some <==> ended,
{
    assert(signal_refreshes(SessionSignal::State { ended })[0] == Refresh::Status);
    assert(signal_refreshes(SessionSignal::Health { ended })[0] == Refresh::Status);
    assert(signal_refreshes(SessionSignal::Mode { ended })[0] == Refresh::Status);
    assert(signal_refreshes(SessionSignal::Capabilities { ended })[0] == Refresh::Capabilities);
    assert(signal_refreshes(SessionSignal::Workloads { ended })[0] == Refresh::RunningWorkloads);
}

/// A reconnection waits twice as long as the one before it, up to eight seconds,
/// and a quarter of a second at first.
pub proof fn reconnections_wait_twice_as_long(n: nat)
    ensures
        pause_after(0) == 250,
        pause_after(n) <= 8_000,
        2 * pause_after(n) <= 8_000 ==> pause_after(n + 1) == 2 * pause_after(n),
        2 * pause_after(n) > 8_000 ==> pause_after(n + 1) == 8_000,
    decreases n,
{
    pauses_are_bounded(n);
}

/// After a lost connection the pauses start over; without one they go on, and the
/// pause after each is twice as long, up to eight seconds.
pub proof fn a_lost_connection_starts_over(next: u64)
    ensures
        retry_pause(true, next) == 250,
        retry_pause(false, next) == next,
        next <= 4_000 ==> doubled_pause(next) == 2 * next,
        next > 4_000 ==> doubled_pause(next) == 8_000,
{
}

/// The picture holds what was told last, each part by its own event, and controls
/// are enabled exactly while there is a connection.
pub proof fn the_picture_holds_what_was_told(
    s: UiState,
    language: Language,
    capabilities: Capabilities,
    rules: Vec<AppRule>,
    workloads: Vec<RunningWorkload>,
    status: DaemonStatus,
    telemetry: TelemetrySnapshot,
    connection: ConnectionState,
)
    ensures
        after_event(s, UiEvent::Capabilities(capabilities)).capabilities == capabilities,
        after_event(s, UiEvent::AppRules(rules)).rules == rules,
        after_event(s, UiEvent::RunningWorkloads(workloads)).workloads == workloads,
        after_event(s, UiEvent::AppRules(rules)).capabilities == s.capabilities,
        repainted(after_event(s, UiEvent::Telemetry(telemetry))).status.thermal
            == telemetry.thermal,
        repainted(after_event(s, UiEvent::Telemetry(telemetry))).status.frequencies
            == telemetry.frequencies,
        after_event(s, UiEvent::Connection(connection)).connected <==> connection is Connected,
        event_actions(s, language, UiEvent::Connection(connection)).contains(
            ActionView::EnableControls(connection is Connected),
        ),
{
    let actions = event_actions(s, language, UiEvent::Connection(connection));
    assert(actions[0] == ActionView::EnableControls(connection is Connected));
}

/// What is cleared is what the workload came from: an explicit choice or the
/// focus.
pub proof fn clearing_follows_the_source(a: ActiveWorkloadView)
    ensures
        a.present && a.source == "explicit"@ ==> clear_target(a) == Some(
            WorkloadClearTarget::Explicit,
        ),
        a.present && a.source == "focus"@ ==> clear_target(a) == Some(WorkloadClearTarget::Focus),
        !a.present ==> clear_target(a) is None,
{
    reveal_strlit("explicit");
    reveal_strlit("focus");
    assert("explicit"@.len() == 8 && "focus"@.len() == 5);
}

/// A rule is made of what was entered, enabled, for the whole system, with the
/// selected mode, and under a name that no other rule has.
pub proof fn a_new_rule_is_what_was_entered(
    executable: Seq<char>,
    comm_regex: Seq<char>,
    mode: Seq<char>,
    existing: Seq<AppRuleView>,
    i: int,
)
    requires
        existing.len() < u32::MAX,
        0 <= i < existing.len(),
    ensures
        ({
            let rule = rule_of(executable, comm_regex, mode, existing);
            &&& rule.mode == mode
            &&& rule.enabled
            &&& rule.owner_uid == 0xffff_ffffu32
            &&& rule.executable is Some <==> trimmed(executable).len() > 0
            &&& rule.executable is Some ==> rule.executable->0 == trimmed(executable)
            &&& rule.comm_regex is Some <==> trimmed(comm_regex).len() > 0
            &&& rule.comm_regex is Some ==> rule.comm_regex->0 == trimmed(comm_regex)
            &&& rule.id != existing[i].id
        }),
{
    generated_rule_ids_are_new(existing);
}

/// A process number that is entered is asked for without a mode, and zero is
/// refused.
pub proof fn the_entered_process_is_asked_for(text: Seq<char>)
    ensures
        parsed_workload(text) is Ok <==> {
            &&& parsed_unsigned(trimmed(text), 0xffff_ffff) is Some
            &&& parsed_unsigned(trimmed(text), 0xffff_ffff)->0 > 0
        },
        parsed_workload(text) is Ok ==> {
            &&& parsed_workload(text)->Ok_0.pid == parsed_unsigned(trimmed(text), 0xffff_ffff)->0
            &&& parsed_workload(text)->Ok_0.mode.len() == 0
        },
{
}

/// A fresh observation is shown as the current range. Without one, what was
/// confirmed last is shown, and called stale.
pub proof fn fresh_state_is_shown_first(language: Language, s: FrequencyStatusView, word: Seq<char>)
    requires
        word == translation(
            language,
            if s.override_active {
                "Manual limit active"@
            } else {
                "Automatic control"@
            },
        ),
    ensures
        s.observed_available && !s.stale ==> status_text(language, Some(s)) == word + " · "@
            + translation(language, "Current allowed range"@) + " "@ + frequency_text(
            s.observed_min_hz,
        ) + " – "@ + frequency_text(s.observed_max_hz),
        s.stale && s.applied_verified ==> status_text(language, Some(s)) == word + " · "@
            + translation(language, "Last confirmed range"@) + " "@ + frequency_text(
            s.applied_min_hz,
        ) + " – "@ + frequency_text(s.applied_max_hz) + " · "@ + translation(language, "stale"@),
        s.stale && !s.applied_verified ==> status_text(language, Some(s)) == translation(
            language,
            "State unavailable · not managed"@,
        ),
{
}

/// A shown load is the nearest whole percentage.
pub proof fn a_shown_load_is_nearest(basis_points: u16)
    ensures
        exists|percent: nat|
            #![trigger decimal_text(percent)]
            load_text(basis_points) == decimal_text(percent) + " %"@ && 100 * percent
                <= basis_points + 50 && basis_points <= 100 * percent + 50,
{
    let whole = basis_points as nat / 100;
    let rest = basis_points as nat % 100;
    let percent = if rest > 50 || (rest == 50 && whole % 2 == 1) {
        whole + 1
    } else {
        whole
    };
    assert(load_text(basis_points) == decimal_text(percent) + " %"@);
}

/// A failed call is a lost connection, or a refusal of its own kind.
pub proof fn failures_are_told_apart(text: String)
    ensures
        disposition(ClientError::Transport(text)) == ErrorDisposition::ConnectionLost,
        disposition(ClientError::InvalidRequest(text)) == ErrorDisposition::Request(
            RequestErrorKind::InvalidRequest,
        ),
{
}

} // verus!
