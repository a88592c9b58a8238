//! Sleep, resume and stop: the transitions that first undo every change that
//! is in force.

use vstd::prelude::*;
use crate::model::Scene;
use super::health::actuator_asked;
use super::hints::HintSet;
use super::inputs::hinted;
use super::names::{ErrorView, RuntimeError};
use super::reload::reload_completed;
use super::state::{
    next, nothing_applied, Action, ActionView, ActuatorReport, AppliedState, FailuresView, Gates,
    Model, ObservedView, PlansView, ReportView, RuntimeActor, WaitersView, Work,
};
use super::thermal::{
    caps_updated, outcome_view, thermal_unavailable, unexpected_message, unexpected_result,
};
use crate::table::Table;

verus! {

/// One answer for each of the sleep or wake callers.
pub open spec fn sleep_answers(tickets: Seq<u64>, result: Result<(), Seq<char>>) -> Seq<ActionView> {
    Seq::new(tickets.len(), |i: int| ActionView::AnswerSleep { ticket: tickets[i], result })
}

/// One answer for each of the stop callers.
pub open spec fn stop_answers(tickets: Seq<u64>, result: Result<(), ErrorView>) -> Seq<ActionView> {
    Seq::new(tickets.len(), |i: int| ActionView::AnswerControl { ticket: tickets[i], result })
}

/// The state in which every wake caller was answered.
pub open spec fn wakers_answered(m: Model, result: Result<(), Seq<char>>) -> Model {
    Model {
        outbox: m.outbox + sleep_answers(m.waiters.wake, result),
        waiters: WaitersView { wake: Seq::empty(), ..m.waiters },
        ..m
    }
}

/// The state in which every sleep caller was answered.
pub open spec fn sleepers_answered(m: Model, result: Result<(), Seq<char>>) -> Model {
    Model {
        outbox: m.outbox + sleep_answers(m.waiters.sleep, result),
        waiters: WaitersView { sleep: Seq::empty(), ..m.waiters },
        ..m
    }
}

/// The state in which every stop caller was answered.
pub open spec fn stoppers_answered(m: Model, result: Result<(), ErrorView>) -> Model {
    Model {
        outbox: m.outbox + stop_answers(m.waiters.stop, result),
        waiters: WaitersView { stop: Seq::empty(), ..m.waiters },
        ..m
    }
}

/// The state without a pending resume, its callers answered with an error.
pub open spec fn resume_cancelled(m: Model, why: Seq<char>) -> Model {
    wakers_answered(
        Model { work: Work { pending_resume: false, ..m.work }, ..m },
        Err(why),
    )
}

/// The suspended state: no hint, no contact, no pending reconciliation.
pub open spec fn suspended_state(m: Model) -> Model {
    Model {
        gates: Gates { suspended: true, ..m.gates },
        observed: ObservedView { hints: Map::empty(), contacts: Set::empty(), ..m.observed },
        work: Work { reconcile_pending: false, restored_while_suspended: false, ..m.work },
        ..m
    }
}

/// The state in which every change is being undone.
pub open spec fn restore_started(m: Model) -> Model {
    let id = next(m.work.next_restore_id);
    Model {
        work: Work {
            restore_requested: false,
            next_restore_id: id,
            restore_in_flight: Some(id),
            ..m.work
        },
        ..m
    }.asks(ActionView::StartRestore { id })
}

/// The state in which a waiting reload candidate was taken up.
pub open spec fn reload_taken(m: Model, now: u64, report: ReportView) -> Model {
    reload_completed(
        Model { plans: PlansView { reload: None, ..m.plans }, ..m },
        m.plans.reload->0,
        now,
        report,
    )
}

/// Whether a mutation barrier stands: something is on its way, or restoration
/// or a reload has its turn.
pub open spec fn barred(m: Model) -> bool {
    ||| m.work.reconcile_in_flight
    ||| m.work.restore_in_flight is Some
    ||| m.work.restore_requested
    ||| m.plans.reload is Some
}

/// The state after the mutation barriers were driven. Restoration comes first,
/// then a waiting reload.
pub open spec fn barriers_driven(m: Model, now: u64, report: ReportView) -> Model {
    if m.work.reconcile_in_flight || m.work.restore_in_flight is Some {
        m
    } else if m.work.restore_requested {
        restore_started(m)
    } else if m.plans.reload is Some {
        reload_taken(m, now, report)
    } else {
        m
    }
}

/// The state after sleep was announced.
pub open spec fn sleep_requested(m: Model, ticket: u64, now: u64, report: ReportView) -> Model {
    if m.waiters.stop.len() > 0 {
        m.asks(
            ActionView::AnswerSleep {
                ticket,
                result: Err(
                    "daemon shutdown has started; the sleep transition was superseded"@,
                ),
            },
        )
    } else {
        let awake = if m.work.pending_resume {
            resume_cancelled(m, "a newer sleep transition superseded the pending resume"@)
        } else {
            m
        };
        sleep_entered(awake, ticket, now, report)
    }
}

/// The state with one more caller that waits for sleep.
pub open spec fn sleeper_added(m: Model, ticket: u64) -> Model {
    Model { waiters: WaitersView { sleep: m.waiters.sleep.push(ticket), ..m.waiters }, ..m }
}

/// The state after sleep was announced and no resume is pending.
pub open spec fn sleep_entered(m: Model, ticket: u64, now: u64, report: ReportView) -> Model {
    match m.failures.restore {
        Some(message) => {
            let suspended = if m.gates.suspended {
                m
            } else {
                suspended_state(m)
            };
            suspended.asks(ActionView::AnswerSleep { ticket, result: Err(message) })
        },
        None => if m.gates.suspended {
            if m.work.restored_while_suspended {
                m.asks(ActionView::AnswerSleep { ticket, result: Ok(()) })
            } else {
                sleeper_added(m, ticket)
            }
        } else {
            let waiting = sleeper_added(suspended_state(m), ticket);
            barriers_driven(
                Model { work: Work { restore_requested: true, ..waiting.work }, ..waiting },
                now,
                report,
            )
        },
    }
}

/// The state after the end of a suspension. Every sensor has to prove itself
/// again.
#[verifier::opaque]
pub open spec fn resumed(m: Model, now: u64, then_barriers: bool) -> Model {
    let awake = Model { gates: Gates { suspended: false, ..m.gates }, ..m };
    let capped = caps_updated(thermal_unavailable(awake, now));
    hinted(
        Model { gates: Gates { scheduler_dirty: true, ..capped.gates }, ..capped },
        Scene::Wake,
        now,
        then_barriers,
    )
}

/// The state after the end of sleep was announced.
pub open spec fn resume_requested(m: Model, ticket: u64, now: u64) -> Model {
    if m.waiters.stop.len() > 0 || !m.gates.accepting_control {
        m.asks(
            ActionView::AnswerSleep {
                ticket,
                result: Err("daemon shutdown has started; resume is no longer accepted"@),
            },
        )
    } else if !m.gates.suspended {
        m.asks(ActionView::AnswerSleep { ticket, result: Ok(()) })
    } else if m.work.restore_requested || m.work.restore_in_flight is Some {
        Model {
            work: Work { pending_resume: true, ..m.work },
            waiters: WaitersView { wake: m.waiters.wake.push(ticket), ..m.waiters },
            ..m
        }
    } else {
        resumed(
            Model { work: Work { restored_while_suspended: false, ..m.work }, ..m },
            now,
            false,
        ).asks(ActionView::AnswerSleep { ticket, result: Ok(()) })
    }
}

/// The state in which control is closed. A periodic identity lookup has no
/// caller and is forgotten.
pub open spec fn control_closed(m: Model) -> Model {
    Model {
        gates: Gates { accepting_control: false, ..m.gates },
        work: Work {
            identity_in_flight: match m.work.identity_in_flight {
                Some(r) => if r.is_control_request {
                    Some(r)
                } else {
                    None
                },
                None => None,
            },
            ..m.work
        },
        ..m
    }
}

/// The state after a stop was asked for.
pub open spec fn stop_requested(m: Model, ticket: u64, now: u64, report: ReportView) -> Model {
    stop_entered(
        resume_cancelled(
            control_closed(m),
            "daemon shutdown superseded the pending resume transition"@,
        ),
        ticket,
        now,
        report,
    )
}

/// The state in which the daemon ends, its caller answered.
pub open spec fn stopping(m: Model, ticket: u64, result: Result<(), ErrorView>) -> Model {
    Model { gates: Gates { stop_requested: true, ..m.gates }, ..m }.asks(
        ActionView::AnswerControl { ticket, result },
    )
}

/// The state with one more caller that waits for the end.
pub open spec fn stopper_added(m: Model, ticket: u64) -> Model {
    Model { waiters: WaitersView { stop: m.waiters.stop.push(ticket), ..m.waiters }, ..m }
}

/// The state after a stop was asked for and control is closed.
pub open spec fn stop_entered(m: Model, ticket: u64, now: u64, report: ReportView) -> Model {
    match m.failures.restore {
        Some(message) => stopping(m, ticket, Err(ErrorView::Degraded(message))),
        None => if m.gates.suspended && m.work.restored_while_suspended {
            stopping(m, ticket, Ok(()))
        } else {
            let suspended = if m.gates.suspended {
                m
            } else {
                suspended_state(m)
            };
            let waiting = stopper_added(suspended, ticket);
            barriers_driven(
                if m.work.restore_in_flight is None {
                    Model { work: Work { restore_requested: true, ..waiting.work }, ..waiting }
                } else {
                    waiting
                },
                now,
                report,
            )
        },
    }
}

/// Why a restoration failed, if it did.
pub open spec fn restore_result(
    expected: Option<u64>,
    id: u64,
    result: Result<(), Seq<char>>,
) -> Result<(), Seq<char>> {
    if expected != Some(id) {
        Err(unexpected_result("received restore result "@, id, expected))
    } else {
        result
    }
}

/// The state after every change was undone.
pub open spec fn restored(m: Model) -> Model {
    Model {
        plans: PlansView { applied: nothing_applied(), units: Map::empty(), ..m.plans },
        observed: ObservedView { frequencies: Map::empty(), ..m.observed },
        work: Work { restored_while_suspended: true, ..m.work },
        ..m
    }.without_issue("actuator.sleep_restore"@)
}

/// The state after a restoration failed: all mutation ends for good.
pub open spec fn restore_broken(m: Model, message: Seq<char>) -> Model {
    Model {
        failures: FailuresView { restore: Some(message), ..m.failures },
        work: Work { restored_while_suspended: false, ..m.work },
        gates: Gates { actuator_read_only: true, ..m.gates },
        ..m
    }.with_issue("actuator.sleep_restore"@, "critical"@, "actuator"@, message)
}

/// The answer that stop callers get for a restoration.
pub open spec fn stop_result(result: Result<(), Seq<char>>) -> Result<(), ErrorView> {
    match result {
        Ok(()) => Ok(()),
        Err(e) => Err(ErrorView::Degraded(e)),
    }
}

/// The state after a restoration ended and its outcome was recorded.
pub open spec fn restore_recorded(
    m: Model,
    result: Result<(), Seq<char>>,
    report: ReportView,
) -> Model {
    let taken = Model { work: Work { restore_in_flight: None, ..m.work }, ..m };
    let noted = match result {
        Ok(()) => restored(taken),
        Err(e) => restore_broken(taken, e),
    };
    sleepers_answered(actuator_asked(noted, report), result)
}

/// What follows a restoration: the end of the daemon where someone waits for
/// it, else a pending resume, else the next barrier.
pub open spec fn restore_followed(
    m: Model,
    result: Result<(), Seq<char>>,
    now: u64,
    report: ReportView,
) -> Model {
    if m.waiters.stop.len() > 0 {
        let cancelled = resume_cancelled(
            m,
            "daemon shutdown superseded the pending resume transition"@,
        );
        stoppers_answered(
            Model { gates: Gates { stop_requested: true, ..cancelled.gates }, ..cancelled },
            stop_result(result),
        )
    } else if m.work.pending_resume {
        wakers_answered(
            resumed(
                Model {
                    work: Work {
                        pending_resume: false,
                        restored_while_suspended: false,
                        ..m.work
                    },
                    ..m
                },
                now,
                true,
            ),
            Ok(()),
        )
    } else {
        barriers_driven(m, now, report)
    }
}

/// The state after a restoration ended.
pub open spec fn restore_finished(
    m: Model,
    id: u64,
    outcome: Result<(), Seq<char>>,
    now: u64,
    report: ReportView,
) -> Model {
    let result = restore_result(m.work.restore_in_flight, id, outcome);
    restore_followed(restore_recorded(m, result, report), result, now, report)
}

/// A copy of an outcome.
fn copy_outcome(r: &Result<(), String>) -> (out: Result<(), String>)
    ensures
        outcome_view(out) == outcome_view(*r),
{
    match r {
        Ok(()) => Ok(()),
        Err(e) => Err(e.clone()),
    }
}

impl RuntimeActor {
    /// Answers the given sleep or wake callers.
    fn answer_all(&mut self, tickets: &Vec<u64>, result: &Result<(), String>)
        ensures
            final(self)@ == (Model {
                outbox: old(self)@.outbox + sleep_answers(tickets@, outcome_view(*result)),
                ..old(self)@
            }),
    {
        let ghost answers = sleep_answers(tickets@, outcome_view(*result));
        let mut i: usize = 0;
        assert(answers.take(0) =~= Seq::empty());
        assert(old(self)@.outbox + Seq::<ActionView>::empty() =~= old(self)@.outbox);
        while i < tickets.len()
            invariant
                i <= tickets@.len(),
                answers == sleep_answers(tickets@, outcome_view(*result)),
                self@ == (Model {
                    outbox: old(self)@.outbox + answers.take(i as int),
                    ..old(self)@
                }),
            decreases tickets@.len() - i,
        {
            self.ask(Action::AnswerSleep { ticket: tickets[i], result: copy_outcome(result) });
            i = i + 1;
            assert(old(self)@.outbox + answers.take(i as int) =~= (old(self)@.outbox
                + answers.take(i - 1)).push(answers[i - 1]));
        }
        assert(answers.take(i as int) =~= answers);
    }

    /// Answers every wake caller.
    fn answer_wakers(&mut self, result: &Result<(), String>)
        ensures
            final(self)@ == wakers_answered(old(self)@, outcome_view(*result)),
    {
        let mut tickets: Vec<u64> = Vec::new();
        std::mem::swap(&mut tickets, &mut self.waiters.wake);
        self.answer_all(&tickets, result);
    }

    /// Answers every sleep caller.
    fn answer_sleepers(&mut self, result: &Result<(), String>)
        ensures
            final(self)@ == sleepers_answered(old(self)@, outcome_view(*result)),
    {
        let mut tickets: Vec<u64> = Vec::new();
        std::mem::swap(&mut tickets, &mut self.waiters.sleep);
        self.answer_all(&tickets, result);
    }

    /// Answers every stop caller.
    fn answer_stoppers(&mut self, result: &Result<(), String>)
        ensures
            final(self)@ == stoppers_answered(old(self)@, stop_result(outcome_view(*result))),
    {
        let ghost answers = stop_answers(self.waiters.stop@, stop_result(outcome_view(*result)));
        let mut tickets: Vec<u64> = Vec::new();
        std::mem::swap(&mut tickets, &mut self.waiters.stop);
        let ghost start = self@;
        let mut i: usize = 0;
        assert(answers.take(0) =~= Seq::empty());
        assert(start.outbox + Seq::<ActionView>::empty() =~= start.outbox);
        while i < tickets.len()
            invariant
                i <= tickets@.len(),
                answers == stop_answers(tickets@, stop_result(outcome_view(*result))),
                self@ == (Model { outbox: start.outbox + answers.take(i as int), ..start }),
            decreases tickets@.len() - i,
        {
            let answer: Result<(), RuntimeError> = match result {
                Ok(()) => Ok(()),
                Err(e) => Err(RuntimeError::Degraded(e.clone())),
            };
            self.ask(Action::AnswerControl { ticket: tickets[i], result: answer });
            i = i + 1;
            assert(start.outbox + answers.take(i as int) =~= (start.outbox + answers.take(
                i - 1,
            )).push(answers[i - 1]));
        }
        assert(answers.take(i as int) =~= answers);
    }

    /// Withdraws a pending resume.
    fn cancel_resume(&mut self, why: &str)
        ensures
            final(self)@ == resume_cancelled(old(self)@, why@),
    {
        self.work.pending_resume = false;
        let result: Result<(), String> = Err(why.to_owned());
        self.answer_wakers(&result);
    }

    /// Suspends: no hint, no contact, no pending reconciliation.
    fn enter_suspended_state(&mut self)
        ensures
            final(self)@ == suspended_state(old(self)@),
    {
        self.gates.suspended = true;
        self.observed.hints = HintSet::new();
        self.observed.contacts.clear();
        self.work.reconcile_pending = false;
        self.work.restored_while_suspended = false;
    }

    /// Starts to undo every change that is in force.
    fn start_restore_worker(&mut self)
        ensures
            final(self)@ == restore_started(old(self)@),
    {
        let id: u64 = self.work.next_restore_id.saturating_add(1);
        self.work.restore_requested = false;
        self.work.next_restore_id = id;
        self.work.restore_in_flight = Some(id);
        self.ask(Action::StartRestore { id });
    }

    /// Drives the mutation barriers, and says whether one stands.
    pub fn drive_mutation_barriers(&mut self, now: u64, report: &ActuatorReport) -> (stands: bool)
        ensures
            final(self)@ == barriers_driven(old(self)@, now, report@),
            stands == barred(old(self)@),
    {
        if self.work.reconcile_in_flight || self.work.restore_in_flight.is_some() {
            return true;
        }
        if self.work.restore_requested {
            self.start_restore_worker();
            return true;
        }
        match self.plans.reload.take() {
            Some(candidate) => {
                self.complete_reload(candidate, now, report);
                true
            },
            None => false,
        }
    }

    /// Suspends where no resume is pending.
    fn enter_sleep(&mut self, ticket: u64, now: u64, report: &ActuatorReport)
        ensures
            final(self)@ == sleep_entered(old(self)@, ticket, now, report@),
    {
        if self.failures.restore.is_some() {
            let message = match &self.failures.restore {
                Some(m) => m.clone(),
                None => String::new(),
            };
            if !self.gates.suspended {
                self.enter_suspended_state();
            }
            self.ask(Action::AnswerSleep { ticket, result: Err(message) });
            return;
        }
        if self.gates.suspended {
            if self.work.restored_while_suspended {
                self.ask(Action::AnswerSleep { ticket, result: Ok(()) });
            } else {
                self.waiters.sleep.push(ticket);
            }
            return;
        }
        self.enter_suspended_state();
        self.waiters.sleep.push(ticket);
        self.work.restore_requested = true;
        self.drive_mutation_barriers(now, report);
    }

    /// Takes over the announcement of sleep. The caller is answered once every
    /// change is undone.
    pub fn request_sleep_restore(&mut self, ticket: u64, now: u64, report: &ActuatorReport)
        ensures
            final(self)@ == sleep_requested(old(self)@, ticket, now, report@),
    {
        if self.waiters.stop.len() > 0 {
            self.ask(
                Action::AnswerSleep {
                    ticket,
                    result: Err(
                        "daemon shutdown has started; the sleep transition was superseded".to_owned(),
                    ),
                },
            );
            return;
        }
        if self.work.pending_resume {
            self.cancel_resume("a newer sleep transition superseded the pending resume");
        }
        self.enter_sleep(ticket, now, report);
    }

    /// Ends a suspension.
    fn resume_from_sleep(&mut self, now: u64, then_barriers: bool)
        ensures
            final(self)@ == resumed(old(self)@, now, then_barriers),
    {
        proof {
            reveal(resumed);
        }
        self.gates.suspended = false;
        self.mark_all_thermal_unavailable(now);
        self.update_thermal_caps();
        self.gates.scheduler_dirty = true;
        self.activate_hint(Scene::Wake, now, then_barriers);
    }

    /// Takes over the announcement that sleep is over.
    pub fn request_resume(&mut self, ticket: u64, now: u64)
        ensures
            final(self)@ == resume_requested(old(self)@, ticket, now),
    {
        if self.waiters.stop.len() > 0 || !self.gates.accepting_control {
            self.ask(
                Action::AnswerSleep {
                    ticket,
                    result: Err(
                        "daemon shutdown has started; resume is no longer accepted".to_owned(),
                    ),
                },
            );
            return;
        }
        if !self.gates.suspended {
            self.ask(Action::AnswerSleep { ticket, result: Ok(()) });
            return;
        }
        if self.work.restore_requested || self.work.restore_in_flight.is_some() {
            self.work.pending_resume = true;
            self.waiters.wake.push(ticket);
            return;
        }
        self.work.restored_while_suspended = false;
        self.resume_from_sleep(now, false);
        self.ask(Action::AnswerSleep { ticket, result: Ok(()) });
    }

    /// Closes control.
    fn close_control(&mut self)
        ensures
            final(self)@ == control_closed(old(self)@),
    {
        let kept = match self.work.identity_in_flight {
            Some(r) => if r.is_control_request {
                Some(r)
            } else {
                None
            },
            None => None,
        };
        self.gates.accepting_control = false;
        self.work.identity_in_flight = kept;
    }

    /// Waits for restoration, or ends at once where nothing is in force.
    fn enter_stop(&mut self, ticket: u64, now: u64, report: &ActuatorReport)
        ensures
            final(self)@ == stop_entered(old(self)@, ticket, now, report@),
    {
        if self.failures.restore.is_some() {
            let message = match &self.failures.restore {
                Some(m) => m.clone(),
                None => String::new(),
            };
            self.gates.stop_requested = true;
            self.ask(
                Action::AnswerControl { ticket, result: Err(RuntimeError::Degraded(message)) },
            );
            return;
        }
        if self.gates.suspended && self.work.restored_while_suspended {
            self.gates.stop_requested = true;
            self.ask(Action::AnswerControl { ticket, result: Ok(()) });
            return;
        }
        if !self.gates.suspended {
            self.enter_suspended_state();
        }
        self.waiters.stop.push(ticket);
        if self.work.restore_in_flight.is_none() {
            self.work.restore_requested = true;
        }
        self.drive_mutation_barriers(now, report);
    }

    /// Takes over the request to stop. The caller is answered once every change
    /// is undone.
    pub fn request_stop(&mut self, ticket: u64, now: u64, report: &ActuatorReport)
        ensures
            final(self)@ == stop_requested(old(self)@, ticket, now, report@),
    {
        self.close_control();
        self.cancel_resume("daemon shutdown superseded the pending resume transition");
        self.enter_stop(ticket, now, report);
    }

    /// Records that every change was undone.
    fn record_restored(&mut self)
        ensures
            final(self)@ == restored(old(self)@),
    {
        self.plans.applied = AppliedState::none();
        self.plans.units = Table::new();
        self.observed.frequencies.clear();
        self.work.restored_while_suspended = true;
        self.withdraw("actuator.sleep_restore");
    }

    /// Ends all mutation after a failed restoration.
    fn break_restore(&mut self, message: &str)
        ensures
            final(self)@ == restore_broken(old(self)@, message@),
    {
        self.failures.restore = Some(message.to_owned());
        self.work.restored_while_suspended = false;
        self.gates.actuator_read_only = true;
        self.report("actuator.sleep_restore", "critical", "actuator", message);
    }

    /// Records the outcome of a restoration.
    fn record_restore(&mut self, result: &Result<(), String>, report: &ActuatorReport)
        ensures
            final(self)@ == restore_recorded(old(self)@, outcome_view(*result), report@),
    {
        self.work.restore_in_flight = None;
        match result {
            Ok(()) => {
                self.record_restored();
            },
            Err(message) => {
                self.break_restore(message.as_str());
            },
        }
        self.refresh_actuator_health(report);
        self.answer_sleepers(result);
    }

    /// Does what follows a restoration.
    fn follow_restore(&mut self, result: &Result<(), String>, now: u64, report: &ActuatorReport)
        ensures
            final(self)@ == restore_followed(old(self)@, outcome_view(*result), now, report@),
    {
        if self.waiters.stop.len() > 0 {
            self.cancel_resume("daemon shutdown superseded the pending resume transition");
            self.gates.stop_requested = true;
            self.answer_stoppers(result);
            return;
        }
        if self.work.pending_resume {
            self.work.pending_resume = false;
            self.work.restored_while_suspended = false;
            self.resume_from_sleep(now, true);
            let done: Result<(), String> = Ok(());
            self.answer_wakers(&done);
            return;
        }
        self.drive_mutation_barriers(now, report);
    }

    /// Takes over the end of a restoration.
    pub fn finish_restore(
        &mut self,
        id: u64,
        outcome: Result<(), String>,
        now: u64,
        report: &ActuatorReport,
    )
        ensures
            final(self)@ == restore_finished(old(self)@, id, outcome_view(outcome), now, report@),
    {
        let expected = self.work.restore_in_flight;
        let result: Result<(), String> = if expected == Some(id) {
            outcome
        } else {
            Err(unexpected_message("received restore result ", id, expected))
        };
        self.record_restore(&result, report);
        self.follow_restore(&result, now, report);
    }
}

/// Sleep is answered with success only where every change is known to be
/// undone: either an earlier restoration of this suspension succeeded, or the
/// caller waits for one.
pub proof fn sleep_is_answered_after_restoration(
    m: Model,
    ticket: u64,
    now: u64,
    report: ReportView,
    i: int,
)
    requires
        m.outbox.len() <= i < sleep_requested(m, ticket, now, report).outbox.len(),
        sleep_requested(m, ticket, now, report).outbox[i] == (ActionView::AnswerSleep {
            ticket,
            result: Ok(()),
        }),
    ensures
        m.gates.suspended,
        m.work.restored_while_suspended,
{
}

/// A new sleep announcement supersedes a pending resume: its callers get an
/// error, and the daemon stays suspended.
pub proof fn newest_transition_wins(m: Model, ticket: u64, now: u64, report: ReportView)
    requires
        m.waiters.stop.len() == 0,
        m.work.pending_resume,
        m.gates.suspended,
    ensures
        ({
            let after = sleep_requested(m, ticket, now, report);
            &&& !after.work.pending_resume
            &&& after.gates.suspended
            &&& after.waiters.wake.len() == 0
            &&& forall|i: int|
                0 <= i < m.waiters.wake.len() ==> after.outbox[m.outbox.len() + i] == (
                ActionView::AnswerSleep {
                    ticket: #[trigger] m.waiters.wake[i],
                    result: Err(
                        "a newer sleep transition superseded the pending resume"@,
                    ),
                })
        }),
{
}

/// All callers that wait for the end get the same answer, and the daemon ends.
pub proof fn stop_callers_share_one_result(
    m: Model,
    id: u64,
    outcome: Result<(), Seq<char>>,
    now: u64,
    report: ReportView,
)
    requires
        m.waiters.stop.len() > 0,
    ensures
        ({
            let after = restore_finished(m, id, outcome, now, report);
            let result = stop_result(restore_result(m.work.restore_in_flight, id, outcome));
            let first = after.outbox.len() - m.waiters.stop.len();
            &&& after.gates.stop_requested
            &&& after.waiters.stop.len() == 0
            &&& after.waiters.wake.len() == 0
            &&& after.waiters.sleep.len() == 0
            &&& forall|i: int|
                0 <= i < m.waiters.stop.len() ==> after.outbox[first + i] == (
                ActionView::AnswerControl { ticket: #[trigger] m.waiters.stop[i], result })
        }),
{
}

/// A failed restoration ends all mutation for good, whatever the actuator says
/// of itself.
pub proof fn restore_failure_is_final(
    m: Model,
    message: Seq<char>,
    report: ReportView,
)
    ensures
        restore_recorded(m, Err(message), report).gates.actuator_read_only,
        restore_recorded(m, Err(message), report).failures.restore == Some(message),
        !restore_recorded(m, Err(message), report).work.restored_while_suspended,
{
}

/// While a reconciliation or a restoration is on its way, no barrier is
/// started.
pub proof fn barriers_wait_for_work(m: Model, now: u64, report: ReportView)
    requires
        m.work.reconcile_in_flight || m.work.restore_in_flight is Some,
    ensures
        barriers_driven(m, now, report) == m,
{
}

/// Restoration has its turn before a waiting reload.
pub proof fn restoration_precedes_reload(m: Model, now: u64, report: ReportView)
    requires
        m.work.restore_requested,
    ensures
        barriers_driven(m, now, report).plans.reload == m.plans.reload,
        barriers_driven(m, now, report).configuration == m.configuration,
{
}

/// What the world outside tells the runtime besides commands.
#[derive(Clone, Copy, Debug, PartialEq, Eq, Structural)]
pub enum RuntimeInput {
    Hint(crate::model::Scene),
    Input(crate::platform::InputEvent),
    /// The system is about to sleep, or woke up.
    PrepareForSleep { sleeping: bool, ticket: u64 },
}

/// The state after the runtime was told of something.
pub open spec fn told(m: Model, input: RuntimeInput, now: u64, report: ReportView) -> Model {
    match input {
        RuntimeInput::Hint(scene) => super::inputs::hinted(m, scene, now, false),
        RuntimeInput::Input(event) => super::inputs::input_reduced(m, event, now),
        RuntimeInput::PrepareForSleep { sleeping, ticket } => if sleeping {
            sleep_requested(m, ticket, now, report)
        } else {
            resume_requested(m, ticket, now)
        },
    }
}

impl RuntimeActor {
    /// Takes in what the world outside tells.
    pub fn reduce_runtime_input(&mut self, input: RuntimeInput, now: u64, report: &ActuatorReport)
        ensures
            final(self)@ == told(old(self)@, input, now, report@),
    {
        match input {
            RuntimeInput::Hint(scene) => self.activate_external_hint(scene, now),
            RuntimeInput::Input(event) => self.reduce_input(event, now),
            RuntimeInput::PrepareForSleep { sleeping, ticket } => {
                if sleeping {
                    self.request_sleep_restore(ticket, now, report);
                } else {
                    self.request_resume(ticket, now);
                }
            },
        }
    }
}

} // verus!
