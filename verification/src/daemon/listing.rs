//! Which running workloads are found and shown, who may call what, and which
//! signals tell of a change, stated over what goes in and what comes out.

use vstd::prelude::*;
use crate::api::{ActiveWorkloadView, RunningWorkloadView, SchedulerStatusView};
use crate::model::ProcessView;
use crate::text::has_infix;
use super::names::ErrorView;
use super::service::{
    active_row, candidate, explicit, first_pattern, game_patterns, has_row, lower, maps_to,
    pattern_matches, permission_of, program, property_signals, pump_signals, row_stays, shown_row,
    shown_rows, snapshot_rows, sorted_by_pid, sorting_keeps_candidates, Permission, PropertiesView,
    PumpEvent, ServiceCall, ServiceError, Signal,
};

verus! {

/// A candidate stands for its process under its full identity and name, and the
/// pattern that it shows is found in its name or its program, whatever the case of
/// the letters.
pub proof fn a_candidate_is_its_process(p: ProcessView)
    ensures
        candidate(p) is Some ==> {
            let c = candidate(p)->0;
            &&& c.identity.pid == p.identity.pid
            &&& c.identity.start_time_ticks == p.identity.start_time_ticks
            &&& c.identity.uid == p.identity.uid
            &&& c.name == p.comm
            &&& !c.active
            &&& has_infix(lower(p.comm), c.matched_pattern) || (p.executable is Some && has_infix(
                lower(p.executable->0),
                c.matched_pattern,
            )) || c.matched_pattern.len() == 0
        },
{
    if candidate(p) is Some {
        pattern_is_found(p, 0);
        if p.executable is None {
            assert(lower(program(p)).len() == 0);
        }
    }
}

proof fn pattern_is_found(p: ProcessView, k: int)
    requires
        0 <= k,
    ensures
        first_pattern(p, k) is Some ==> pattern_matches(p, first_pattern(p, k)->0),
        first_pattern(p, k) is None ==> forall|i: int|
            k <= i < game_patterns().len() ==> !pattern_matches(p, #[trigger] game_patterns()[i]),
    decreases game_patterns().len() - k,
{
    if k < game_patterns().len() && !pattern_matches(p, game_patterns()[k]) {
        pattern_is_found(p, k + 1);
    }
}

/// A process whose name holds a pattern in any case of its letters is a candidate.
pub proof fn a_matching_process_is_a_candidate(p: ProcessView, i: int)
    requires
        0 <= i < game_patterns().len(),
        has_infix(lower(p.comm), game_patterns()[i]) || (p.executable is Some && has_infix(
            lower(p.executable->0),
            game_patterns()[i],
        )),
    ensures
        candidate(p) is Some,
{
    pattern_is_found(p, 0);
    assert(pattern_matches(p, game_patterns()[i]));
}

/// Letters count alike in both cases, and nothing else changes.
pub proof fn case_does_not_matter(s: Seq<char>, i: int)
    requires
        0 <= i < s.len(),
    ensures
        lower(s).len() == s.len(),
        'A' <= s[i] && s[i] <= 'Z' ==> 'a' <= lower(s)[i] && lower(s)[i] <= 'z' && lower(s)[i] as u32
            - 'a' as u32 == s[i] as u32 - 'A' as u32,
        !('A' <= s[i] && s[i] <= 'Z') ==> lower(s)[i] == s[i],
{
}

/// The superuser is shown every row, others those of their own processes; the row
/// of the explicit workload is there and active, and no other row is. A row whose
/// number was taken over by the explicit workload is gone.
pub proof fn rows_are_shown_to_their_owners(
    rows: Seq<RunningWorkloadView>,
    active: ActiveWorkloadView,
    scheduler: SchedulerStatusView,
    caller_uid: u32,
    row: RunningWorkloadView,
)
    ensures
        ({
            let out = snapshot_rows(rows, active, scheduler, caller_uid);
            let named = active.present && active.source == "explicit"@;
            &&& rows.contains(row) && (caller_uid == 0 || row.identity.uid == caller_uid) && !(named
                && row.identity.pid == active.identity.pid) ==> exists|i: int|
                0 <= i < out.len() && (#[trigger] out[i]).identity == row.identity && out[i].name
                    == row.name && !out[i].active
            &&& named && (caller_uid == 0 || active.identity.uid == caller_uid) ==> exists|i: int|
                0 <= i < out.len() && (#[trigger] out[i]).identity == active.identity
                    && out[i].active && out[i].scheduler == scheduler
            &&& out.contains(row) && row.active ==> named && row.identity == active.identity
            &&& out.contains(row) && named && row.identity.pid == active.identity.pid
                ==> row.identity == active.identity
        }),
{
    let out = snapshot_rows(rows, active, scheduler, caller_uid);
    let shown = shown_rows(rows, active, scheduler, caller_uid);
    let named = explicit(active);
    let added = named && !has_row(rows, active.identity) && (caller_uid == 0 || active.identity.uid
        == caller_uid);
    let all = if added {
        shown.push(active_row(active, scheduler))
    } else {
        shown
    };
    sorting_keeps_candidates(all);
    assert(out == sorted_by_pid(all));
    if rows.contains(row) && (caller_uid == 0 || row.identity.uid == caller_uid) && !(named
        && row.identity.pid == active.identity.pid) {
        shown_rows_are(rows, active, scheduler, caller_uid, row);
        let s = shown_row(row, active, scheduler);
        let k = choose|k: int| 0 <= k < shown.len() && shown[k] == s;
        assert(all[k] == s);
        assert(out.contains(s));
        let i = choose|i: int| 0 <= i < out.len() && out[i] == s;
        assert(out[i].identity == row.identity);
    }
    if named && (caller_uid == 0 || active.identity.uid == caller_uid) {
        if added {
            let a = active_row(active, scheduler);
            assert(all[shown.len() as int] == a);
            assert(out.contains(a));
            let i = choose|i: int| 0 <= i < out.len() && out[i] == a;
            assert(out[i].identity == active.identity);
        } else {
            let j = choose|j: int| 0 <= j < rows.len() && (#[trigger] rows[j]).identity == active.identity;
            shown_rows_are(rows, active, scheduler, caller_uid, rows[j]);
            let s = shown_row(rows[j], active, scheduler);
            assert(rows.contains(rows[j]));
            let k = choose|k: int| 0 <= k < shown.len() && shown[k] == s;
            assert(all[k] == s);
            assert(out.contains(s));
            let i = choose|i: int| 0 <= i < out.len() && out[i] == s;
            assert(out[i].identity == active.identity);
        }
    }
    if out.contains(row) {
        assert(all.contains(row));
        let k = choose|k: int| 0 <= k < all.len() && all[k] == row;
        if k < shown.len() {
            shown_row_is_of_a_row(rows, active, scheduler, caller_uid, k);
        }
    }
}

proof fn shown_rows_are(
    rows: Seq<RunningWorkloadView>,
    active: ActiveWorkloadView,
    scheduler: SchedulerStatusView,
    caller_uid: u32,
    row: RunningWorkloadView,
)
    requires
        row_stays(row, active),
        caller_uid == 0 || row.identity.uid == caller_uid,
    ensures
        rows.contains(row) ==> shown_rows(rows, active, scheduler, caller_uid).contains(
            shown_row(row, active, scheduler),
        ),
    decreases rows.len(),
{
    if rows.contains(row) {
        let k = choose|k: int| 0 <= k < rows.len() && rows[k] == row;
        let before = shown_rows(rows.drop_last(), active, scheduler, caller_uid);
        let out = shown_rows(rows, active, scheduler, caller_uid);
        let s = shown_row(row, active, scheduler);
        if k < rows.len() - 1 {
            assert(rows.drop_last()[k] == row);
            shown_rows_are(rows.drop_last(), active, scheduler, caller_uid, row);
            let i = choose|i: int| 0 <= i < before.len() && before[i] == s;
            assert(out[i] == s);
        } else {
            assert(out[before.len() as int] == s);
        }
    }
}

proof fn shown_row_is_of_a_row(
    rows: Seq<RunningWorkloadView>,
    active: ActiveWorkloadView,
    scheduler: SchedulerStatusView,
    caller_uid: u32,
    k: int,
)
    requires
        0 <= k < shown_rows(rows, active, scheduler, caller_uid).len(),
    ensures
        exists|j: int|
            0 <= j < rows.len() && row_stays(#[trigger] rows[j], active) && shown_rows(
                rows,
                active,
                scheduler,
                caller_uid,
            )[k] == shown_row(rows[j], active, scheduler),
    decreases rows.len(),
{
    if rows.len() > 0 {
        let before = shown_rows(rows.drop_last(), active, scheduler, caller_uid);
        if k < before.len() {
            shown_row_is_of_a_row(rows.drop_last(), active, scheduler, caller_uid, k);
            let j = choose|j: int|
                0 <= j < rows.drop_last().len() && row_stays(
                    #[trigger] rows.drop_last()[j],
                    active,
                ) && before[k] == shown_row(rows.drop_last()[j], active, scheduler);
            assert(rows[j] == rows.drop_last()[j]);
        } else {
            assert(rows[rows.len() - 1] == rows.last());
        }
    }
}

/// What changes frequencies, rules or the configuration is for administrators;
/// what changes the mode needs control; the focus is reported from an active
/// session only; and nobody is told of processes or selects one unknown.
pub proof fn changes_need_their_permission(call: ServiceCall)
    ensures
        call is SetFrequencyOverrides || call is ClearFrequencyOverrides || call is ReloadConfig
            || call is SetAppRule || call is RemoveAppRule <==> permission_of(call)
            == Permission::Administration,
        call is SetMode <==> permission_of(call) == Permission::Control,
        call is SetActiveWorkload && call->with_mode <==> permission_of(call)
            == Permission::IdentityAndControl,
        call is SetForegroundProcess <==> permission_of(call) == Permission::ActiveSession,
{
}

/// A service error is of the kind of the error it stands for and keeps its text.
pub proof fn errors_keep_their_kind(text: Seq<char>, s: ServiceError)
    ensures
        maps_to(ErrorView::InvalidArgument(text), s) ==> s is InvalidArgument
            && s->InvalidArgument_0@ == text,
        maps_to(ErrorView::NotFound(text), s) ==> s is NotFound && s->NotFound_0@ == text,
        maps_to(ErrorView::NotAuthorized(text), s) ==> s is NotAuthorized && s->NotAuthorized_0@
            == text,
        maps_to(ErrorView::Conflict(text), s) ==> s is Conflict && s->Conflict_0@ == text,
        maps_to(ErrorView::Degraded(text), s) ==> s is Degraded && s->Degraded_0@ == text,
        maps_to(ErrorView::Validation(text), s) ==> s is ValidationFailed
            && s->ValidationFailed_0@ == text,
        maps_to(ErrorView::Internal(text), s) ==> s is Internal && s->Internal_0@ == text,
{
}

/// A change of state is told first, then each property that changed and no other,
/// and health and capabilities by their own signals.
pub proof fn each_changed_property_is_told(
    revision: u64,
    last: PropertiesView,
    current: PropertiesView,
)
    ensures
        ({
            let s = pump_signals(PumpEvent::StateChanged(revision), last, current);
            &&& s.len() > 0 && s[0] == Signal::StateChanged(revision)
            &&& s.contains(Signal::ConfigGenerationProperty) <==> current.config_generation
                != last.config_generation
            &&& s.contains(Signal::ModeProperty) <==> current.mode != last.mode
            &&& s.contains(Signal::EffectiveProfileProperty) <==> current.effective_profile
                != last.effective_profile
            &&& s.contains(Signal::DominantSceneProperty) <==> current.dominant_scene
                != last.dominant_scene
            &&& s.contains(Signal::CompareRunningWorkloads)
        }),
        pump_signals(PumpEvent::HealthChanged, last, current).contains(Signal::HealthChanged),
        pump_signals(PumpEvent::HealthChanged, last, current).contains(Signal::HealthProperty),
        pump_signals(PumpEvent::HealthChanged, last, current).contains(Signal::DegradedProperty),
        pump_signals(PumpEvent::CapabilitiesChanged, last, current).contains(
            Signal::CapabilitiesChanged,
        ),
{
    let p = property_signals(last, current);
    let s = pump_signals(PumpEvent::StateChanged(revision), last, current);
    let a: int = if current.config_generation != last.config_generation {
        1
    } else {
        0
    };
    let b: int = if current.mode != last.mode {
        a + 1
    } else {
        a
    };
    let c: int = if current.effective_profile != last.effective_profile {
        b + 1
    } else {
        b
    };
    if current.config_generation != last.config_generation {
        assert(s[1] == Signal::ConfigGenerationProperty);
    }
    if current.mode != last.mode {
        assert(s[1 + a] == Signal::ModeProperty);
    }
    if current.effective_profile != last.effective_profile {
        assert(s[1 + b] == Signal::EffectiveProfileProperty);
    }
    if current.dominant_scene != last.dominant_scene {
        assert(s[1 + c] == Signal::DominantSceneProperty);
    }
    assert(s[s.len() - 1] == Signal::CompareRunningWorkloads);
    let h = pump_signals(PumpEvent::HealthChanged, last, current);
    assert(h[0] == Signal::HealthChanged && h[1] == Signal::HealthProperty && h[2]
        == Signal::DegradedProperty);
    let k = pump_signals(PumpEvent::CapabilitiesChanged, last, current);
    assert(k[0] == Signal::CapabilitiesChanged);
}

} // verus!
