//! What sleep, waking, stopping and reloading bring about, stated over what goes
//! in and what comes out.

use vstd::prelude::*;
use crate::model::ThermalState;
use crate::platform::TouchContactId;
use super::barriers::{restore_recorded, resume_requested, sleep_requested, stop_requested};
use super::commands::{activated, shutdown_begun};
use super::config::ConfigModel;
use super::names::ErrorView;
use super::reload::reload_received;
use super::state::{ActionView, Model, ReportView};

verus! {

/// Going to sleep suspends, drops every contact and hint, and has every change
/// undone before it is answered: the undoing starts at once, or as soon as what is
/// on its way is over.
pub proof fn sleep_undoes_every_change(m: Model, ticket: u64, now: u64, report: ReportView)
    requires
        m.waiters.stop.len() == 0,
        !m.work.pending_resume,
        m.failures.restore is None,
        !m.gates.suspended,
    ensures
        ({
            let after = sleep_requested(m, ticket, now, report);
            &&& after.gates.suspended
            &&& after.observed.contacts == Set::<TouchContactId>::empty()
            &&& after.observed.hints.dom() == Set::<crate::model::Scene>::empty()
            &&& after.waiters.sleep.contains(ticket)
            &&& !m.work.reconcile_in_flight && m.work.restore_in_flight is None ==> {
                &&& after.work.restore_in_flight is Some
                &&& after.outbox.last() == (ActionView::StartRestore {
                    id: after.work.restore_in_flight->0,
                })
            }
            &&& m.work.reconcile_in_flight || m.work.restore_in_flight is Some
                ==> after.work.restore_requested && after.outbox == m.outbox
        }),
{
    let after = sleep_requested(m, ticket, now, report);
    assert(after.waiters.sleep[m.waiters.sleep.len() as int] == ticket);
    assert(Map::<crate::model::Scene, Option<u64>>::empty().dom() =~= Set::empty());
}

/// An undone state has nothing in force, and tells every caller that waits for
/// sleep; a failed undoing tells them why and ends mutation.
pub proof fn undoing_leaves_nothing_in_force(m: Model, error: Seq<char>, report: ReportView, i: int)
    requires
        0 <= i < m.waiters.sleep.len(),
    ensures
        ({
            let done = restore_recorded(m, Ok(()), report);
            let failed = restore_recorded(m, Err(error), report);
            &&& done.plans.applied.frequencies.dom() == Set::<Seq<char>>::empty()
            &&& done.plans.applied.tasks.len() == 0
            &&& done.plans.units.dom() == Set::<Seq<char>>::empty()
            &&& done.work.restored_while_suspended
            &&& done.work.restore_in_flight is None
            &&& done.waiters.sleep.len() == 0
            &&& done.outbox[m.outbox.len() + i] == (ActionView::AnswerSleep {
                ticket: m.waiters.sleep[i],
                result: Ok(()),
            })
            &&& failed.outbox[m.outbox.len() + i] == (ActionView::AnswerSleep {
                ticket: m.waiters.sleep[i],
                result: Err(error),
            })
            &&& failed.gates.actuator_read_only
            &&& failed.plans.applied == m.plans.applied
        }),
{
    let done = restore_recorded(m, Ok(()), report);
    assert(done.plans.applied.frequencies.dom() =~= Set::<Seq<char>>::empty());
    assert(done.plans.units.dom() =~= Set::<Seq<char>>::empty());
}

/// Waking up while changes are still being undone waits for that, and is answered
/// at once where nothing is left to wait for. After shutdown has begun it is
/// refused.
pub proof fn waking_waits_for_the_undoing(m: Model, ticket: u64, now: u64)
    ensures
        ({
            let after = resume_requested(m, ticket, now);
            let open = m.waiters.stop.len() == 0 && m.gates.accepting_control;
            let busy = m.work.restore_requested || m.work.restore_in_flight is Some;
            &&& open && m.gates.suspended && busy ==> after.work.pending_resume
                && after.waiters.wake.contains(ticket) && after.gates.suspended && after.outbox
                == m.outbox
            &&& open && m.gates.suspended && !busy ==> !after.gates.suspended
                && after.outbox.last() == (ActionView::AnswerSleep { ticket, result: Ok(()) })
            &&& open && !m.gates.suspended ==> after.outbox.last() == (ActionView::AnswerSleep {
                ticket,
                result: Ok(()),
            }) && after.gates == m.gates
            &&& !open ==> after.gates == m.gates && after.outbox.last() is AnswerSleep
                && after.outbox.last()->AnswerSleep_result is Err
        }),
{
    let after = resume_requested(m, ticket, now);
    if m.waiters.stop.len() == 0 && m.gates.accepting_control && m.gates.suspended {
        if m.work.restore_requested || m.work.restore_in_flight is Some {
            assert(after.waiters.wake[m.waiters.wake.len() as int] == ticket);
        } else {
            super::effects::waking_starts_over(
                Model {
                    work: super::state::Work { restored_while_suspended: false, ..m.work },
                    ..m
                },
                now,
                false,
            );
        }
    }
}

/// Stopping closes control and has every change undone first, unless that is done
/// or failed already; only then does the daemon end.
pub proof fn stopping_undoes_every_change(m: Model, ticket: u64, now: u64, report: ReportView)
    ensures
        ({
            let after = stop_requested(m, ticket, now, report);
            let undone = m.gates.suspended && m.work.restored_while_suspended;
            &&& !after.gates.accepting_control
            &&& m.failures.restore is None && !undone ==> {
                &&& after.gates.suspended
                &&& after.waiters.stop.contains(ticket)
                &&& after.gates.stop_requested == m.gates.stop_requested
                &&& after.work.restore_requested || after.work.restore_in_flight is Some
            }
            &&& m.failures.restore is None && undone ==> after.gates.stop_requested
                && after.outbox.last() == (ActionView::AnswerControl { ticket, result: Ok(()) })
            &&& m.failures.restore is Some ==> after.gates.stop_requested && after.outbox.last() == (
            ActionView::AnswerControl {
                ticket,
                result: Err(ErrorView::Degraded(m.failures.restore->0)),
            })
        }),
{
    let after = stop_requested(m, ticket, now, report);
    if m.failures.restore is None && !(m.gates.suspended && m.work.restored_while_suspended) {
        assert(after.waiters.stop[m.waiters.stop.len() as int] == ticket);
    }
}

/// Mutation begins when it is activated, and control ends when shutdown begins.
pub proof fn activation_and_shutdown_move_their_gates(m: Model, ticket: u64)
    ensures
        m.gates.accepting_control ==> activated(m, ticket).gates.mutations_activated
            && activated(m, ticket).outbox.last() == (ActionView::AnswerControl {
            ticket,
            result: Ok(()),
        }),
        !m.gates.accepting_control ==> activated(m, ticket).gates == m.gates,
        !shutdown_begun(m, ticket).gates.accepting_control,
        shutdown_begun(m, ticket).outbox.last() == (ActionView::AnswerControl {
            ticket,
            result: Ok(()),
        }),
{
}

/// A configuration with the same targets at the same files is in force at once, or
/// waits for what is on its way; one with other targets or files is refused.
pub proof fn a_sound_configuration_is_taken_over(
    m: Model,
    ticket: u64,
    configuration: ConfigModel,
    now: u64,
    report: ReportView,
    k: Seq<char>,
)
    ensures
        ({
            let after = reload_received(m, ticket, Ok(configuration), now, report);
            let old_targets = m.configuration.targets;
            let new_targets = configuration.targets;
            let idle = !m.work.reconcile_in_flight && m.work.restore_in_flight is None
                && !m.work.restore_requested;
            &&& old_targets == new_targets && idle ==> after.configuration == configuration
                && after.caps.thermal_state == ThermalState::Degraded
            &&& old_targets == new_targets && !idle ==> after.configuration == m.configuration
                && after.plans.reload is Some && after.plans.reload->0.configuration
                == configuration && after.plans.reload->0.ticket == ticket
            &&& (old_targets.dom().contains(k) != new_targets.dom().contains(k) || (
            new_targets.dom().contains(k) && new_targets[k].hertz_per_unit
                != old_targets[k].hertz_per_unit)) ==> after.configuration == m.configuration
                && after.plans.reload == m.plans.reload && after.outbox.last() is AnswerReload
                && after.outbox.last()->AnswerReload_result is Err
        }),
{
    let candidate = super::state::CandidateView { ticket, configuration };
    super::reload::reload_is_fail_closed(m, candidate, now, report);
    let old_targets = m.configuration.targets;
    let new_targets = configuration.targets;
    if super::config::same_mapping(new_targets, old_targets) {
        assert(new_targets.dom().contains(k) <==> old_targets.dom().contains(k));
        if new_targets.dom().contains(k) {
            assert(super::config::same_files(new_targets[k], old_targets[k]));
        }
    }
    if old_targets == new_targets {
        assert(super::config::same_mapping(new_targets, old_targets));
    }
}

} // verus!
