//! One change of scheduling as a sequence of calls: the state from before is
//! read, the steps are made one after the other, the outcome is read back, and
//! on any failure the steps that were made are taken back, the last one first.

use vstd::prelude::*;
use crate::cpuset::CpuIds;
use crate::model::seq_view;
use crate::platform::{
    malformed, PlatformError, PlatformErrorView, PlatformResult, ProcessSchedulingState,
    SchedulingView,
};
use crate::text::cat4;
use super::scheduler::{
    clamps_differ, clamps_only_where_they_differ, copy_error, desired_error, fail_transaction,
    forward_steps, matches_desired, meets, pid_error, plan_steps, plan_undo, raw_process_id,
    sched_path, scheduling_path, step_name, step_text, transaction_error, undo_steps,
    validate_desired, Step, StepView,
};
use super::shown::{scheduling_text, show_scheduling};
use super::systemd::online_view;

verus! {

/// The view of a state that was read, or of why it was not.
pub open spec fn state_view(r: PlatformResult<ProcessSchedulingState>) -> Result<
    SchedulingView,
    PlatformErrorView,
> {
    match r {
        Ok(s) => Ok(s@),
        Err(e) => Err(e@),
    }
}

/// Why a step failed, if so.
pub open spec fn reply_error(r: PlatformResult<()>) -> Option<PlatformErrorView> {
    match r {
        Ok(_) => None,
        Err(e) => Some(e@),
    }
}

/// Why a change ends before its first step, if so.
pub open spec fn refusal(
    online_path: Seq<char>,
    online: Result<Set<u32>, PlatformErrorView>,
    original: SchedulingView,
    desired: SchedulingView,
) -> Option<PlatformErrorView> {
    if desired.affinity == Set::<u32>::empty() {
        Some(malformed(online_path, "CPU affinity must not be empty"@))
    } else {
        match online {
            Err(e) => Some(e),
            Ok(cpus) => desired_error(online_path, cpus, original, desired),
        }
    }
}

/// The failure of a change whose outcome is not what was asked for.
pub open spec fn readback_error(
    process: u32,
    desired: SchedulingView,
    actual: SchedulingView,
) -> PlatformErrorView {
    malformed(
        sched_path("/proc"@, process),
        "scheduler readback differs from request: requested "@ + scheduling_text(desired)
            + ", got "@ + scheduling_text(actual),
    )
}

/// The failures of undoing, with what became of one more step.
pub open spec fn with_failure(
    failed: Seq<char>,
    step: StepView,
    reply: Option<PlatformErrorView>,
) -> Seq<char> {
    match reply {
        None => failed,
        Some(e) => (if failed.len() == 0 {
            failed
        } else {
            failed + "; "@
        }) + step_text(step) + ": "@ + e.text(),
    }
}

/// The failures among the first `n` replies, each with the name of its step.
pub open spec fn failed_steps(
    steps: Seq<StepView>,
    given: Seq<Option<PlatformErrorView>>,
    n: nat,
) -> Seq<char>
    decreases n,
{
    if n == 0 {
        Seq::empty()
    } else {
        with_failure(failed_steps(steps, given, (n - 1) as nat), steps[n - 1], given[n - 1])
    }
}

/// Where a change of scheduling stands.
#[derive(Debug)]
pub enum SchedulingPhase {
    /// The state from before is being read.
    ReadOriginal,
    /// The step at position `at` is being made.
    Apply { original: ProcessSchedulingState, steps: Vec<Step>, at: usize },
    /// The outcome is being read back.
    ReadBack { original: ProcessSchedulingState, steps: Vec<Step> },
    /// The step at position `at` of those that undo is being made.
    Undo { failure: PlatformError, undo: Vec<Step>, at: usize, failed: String },
    Finished,
}

/// The view of [`SchedulingPhase`].
pub enum SchedulingPhaseView {
    ReadOriginal,
    Apply { original: SchedulingView, at: nat },
    ReadBack { original: SchedulingView },
    Undo { failure: PlatformErrorView, undo: Seq<StepView>, at: nat, failed: Seq<char> },
    Finished,
}

impl View for SchedulingPhase {
    type V = SchedulingPhaseView;

    open spec fn view(&self) -> SchedulingPhaseView {
        match *self {
            SchedulingPhase::ReadOriginal => SchedulingPhaseView::ReadOriginal,
            SchedulingPhase::Apply { original, steps, at } => SchedulingPhaseView::Apply {
                original: original@,
                at: at as nat,
            },
            SchedulingPhase::ReadBack { original, steps } => SchedulingPhaseView::ReadBack {
                original: original@,
            },
            SchedulingPhase::Undo { failure, undo, at, failed } => SchedulingPhaseView::Undo {
                failure: failure@,
                undo: seq_view(undo@),
                at: at as nat,
                failed: failed@,
            },
            SchedulingPhase::Finished => SchedulingPhaseView::Finished,
        }
    }
}

/// What has to be done next.
#[derive(Debug)]
pub enum SchedulingAction {
    Read,
    Make(Step),
    Finish(PlatformResult<ProcessSchedulingState>),
}

/// The view of [`SchedulingAction`].
pub enum SchedulingActionView {
    Read,
    Make(StepView),
    Finish(Result<SchedulingView, PlatformErrorView>),
}

impl View for SchedulingAction {
    type V = SchedulingActionView;

    open spec fn view(&self) -> SchedulingActionView {
        match *self {
            SchedulingAction::Read => SchedulingActionView::Read,
            SchedulingAction::Make(s) => SchedulingActionView::Make(s@),
            SchedulingAction::Finish(r) => SchedulingActionView::Finish(state_view(r)),
        }
    }
}

/// One change of scheduling.
#[derive(Debug)]
pub struct SchedulingTransaction {
    pub process: u32,
    pub desired: ProcessSchedulingState,
    pub online_path: String,
    pub online: PlatformResult<CpuIds>,
    pub phase: SchedulingPhase,
}

/// The view of [`SchedulingTransaction`].
pub struct SchedulingTransactionView {
    pub process: u32,
    pub desired: SchedulingView,
    pub online_path: Seq<char>,
    pub online: Result<Set<u32>, PlatformErrorView>,
    pub phase: SchedulingPhaseView,
}

impl View for SchedulingTransaction {
    type V = SchedulingTransactionView;

    open spec fn view(&self) -> SchedulingTransactionView {
        SchedulingTransactionView {
            process: self.process,
            desired: self.desired@,
            online_path: self.online_path@,
            online: online_view(self.online),
            phase: self.phase@,
        }
    }
}

/// A change and what has to be done next for it.
pub struct Turn {
    pub state: SchedulingTransactionView,
    pub action: SchedulingActionView,
}

/// A change in another phase.
pub open spec fn turned(
    t: SchedulingTransactionView,
    phase: SchedulingPhaseView,
    action: SchedulingActionView,
) -> Turn {
    Turn { state: SchedulingTransactionView { phase, ..t }, action }
}

/// A change before anything was done.
pub open spec fn started(
    process: u32,
    desired: SchedulingView,
    online_path: Seq<char>,
    online: Result<Set<u32>, PlatformErrorView>,
) -> Turn {
    Turn {
        state: SchedulingTransactionView {
            process,
            desired,
            online_path,
            online,
            phase: SchedulingPhaseView::ReadOriginal,
        },
        action: SchedulingActionView::Read,
    }
}

/// A change that is over.
pub open spec fn finished(
    t: SchedulingTransactionView,
    outcome: Result<SchedulingView, PlatformErrorView>,
) -> Turn {
    turned(t, SchedulingPhaseView::Finished, SchedulingActionView::Finish(outcome))
}

/// A change whose first `at` steps were made: the next one is made, and after
/// the last the outcome is read back.
pub open spec fn going_on(t: SchedulingTransactionView, original: SchedulingView, at: nat) -> Turn {
    let steps = forward_steps(original, t.desired);
    if at < steps.len() {
        turned(
            t,
            SchedulingPhaseView::Apply { original, at },
            SchedulingActionView::Make(steps[at as int]),
        )
    } else {
        turned(t, SchedulingPhaseView::ReadBack { original }, SchedulingActionView::Read)
    }
}

/// A change that failed, with `at` of the undoing steps made: the next one is
/// made, and after the last the change is over.
pub open spec fn going_back(
    t: SchedulingTransactionView,
    failure: PlatformErrorView,
    undo: Seq<StepView>,
    at: nat,
    failed: Seq<char>,
) -> Turn {
    if at < undo.len() {
        turned(
            t,
            SchedulingPhaseView::Undo { failure, undo, at, failed },
            SchedulingActionView::Make(undo[at as int]),
        )
    } else {
        finished(t, Err(transaction_error(t.process, failure, failed)))
    }
}

/// A change that fails with `made` of its steps made: those are taken back.
pub open spec fn failing(
    t: SchedulingTransactionView,
    original: SchedulingView,
    made: nat,
    failure: PlatformErrorView,
) -> Turn {
    going_back(
        t,
        failure,
        undo_steps(original, forward_steps(original, t.desired), made),
        0,
        Seq::empty(),
    )
}

/// What follows from the state from before.
pub open spec fn after_original(
    t: SchedulingTransactionView,
    reply: Result<SchedulingView, PlatformErrorView>,
) -> Turn {
    match reply {
        Err(e) => finished(t, Err(e)),
        Ok(original) => match refusal(t.online_path, t.online, original, t.desired) {
            Some(e) => finished(t, Err(e)),
            None => going_on(t, original, 0),
        },
    }
}

/// What follows from a step.
pub open spec fn after_step(
    t: SchedulingTransactionView,
    original: SchedulingView,
    at: nat,
    reply: Option<PlatformErrorView>,
) -> Turn {
    match reply {
        None => going_on(t, original, at + 1),
        Some(e) => failing(t, original, at, e),
    }
}

/// What follows from the outcome that was read back.
pub open spec fn after_read_back(
    t: SchedulingTransactionView,
    original: SchedulingView,
    reply: Result<SchedulingView, PlatformErrorView>,
) -> Turn {
    let made = forward_steps(original, t.desired).len();
    match reply {
        Err(e) => failing(t, original, made, e),
        Ok(actual) => if meets(actual, t.desired) {
            finished(t, Ok(actual))
        } else {
            failing(t, original, made, readback_error(t.process, t.desired, actual))
        },
    }
}

/// What follows from a step that undoes.
pub open spec fn after_undo(
    t: SchedulingTransactionView,
    failure: PlatformErrorView,
    undo: Seq<StepView>,
    at: nat,
    failed: Seq<char>,
    reply: Option<PlatformErrorView>,
) -> Turn {
    going_back(t, failure, undo, at + 1, with_failure(failed, undo[at as int], reply))
}

/// A copy of a step.
fn copy_step(step: &Step) -> (out: Step)
    ensures
        out@ == step@,
{
    match step {
        Step::Affinity(s) => Step::Affinity(s.duplicate()),
        Step::Nice(n) => Step::Nice(*n),
        Step::Policy(p, r) => Step::Policy(*p, *r),
        Step::Uclamp(a, b) => Step::Uclamp(*a, *b),
    }
}

/// A copy of the CPUs that are online, or of why they are not known.
fn copy_online(online: &PlatformResult<CpuIds>) -> (out: PlatformResult<CpuIds>)
    ensures
        online_view(out) == online_view(*online),
{
    match online {
        Ok(cpus) => Ok(cpus.duplicate()),
        Err(e) => Err(copy_error(e)),
    }
}

impl SchedulingTransaction {
    /// Whether the steps are those of this change, and the position is that of
    /// one of them.
    pub open spec fn well_formed(&self) -> bool {
        match self.phase {
            SchedulingPhase::Apply { original, steps, at } => {
                &&& seq_view(steps@) == forward_steps(original@, self.desired@)
                &&& at < steps@.len()
                &&& clamps_differ(original@, self.desired@) ==> original@.uclamp_min is Some
                    && original@.uclamp_max is Some
            },
            SchedulingPhase::ReadBack { original, steps } => {
                &&& seq_view(steps@) == forward_steps(original@, self.desired@)
                &&& clamps_differ(original@, self.desired@) ==> original@.uclamp_min is Some
                    && original@.uclamp_max is Some
            },
            SchedulingPhase::Undo { failure, undo, at, failed } => at < undo@.len(),
            _ => true,
        }
    }

    /// Starts a change. Its first action is to read the state from before.
    pub fn begin(
        process: u32,
        desired: &ProcessSchedulingState,
        online_path: &str,
        online: &PlatformResult<CpuIds>,
    ) -> (r: PlatformResult<SchedulingTransaction>)
        ensures
            match r {
                Ok(t) => {
                    &&& pid_error(process) is None
                    &&& t.well_formed()
                    &&& t@ == started(
                        process,
                        desired@,
                        online_path@,
                        online_view(*online),
                    ).state
                },
                Err(e) => pid_error(process) == Some(e@),
            },
    {
        if let Err(e) = raw_process_id(process) {
            return Err(e);
        }
        Ok(
            SchedulingTransaction {
                process,
                desired: desired.duplicate(),
                online_path: online_path.to_owned(),
                online: copy_online(online),
                phase: SchedulingPhase::ReadOriginal,
            },
        )
    }

    /// Why the change ends before its first step, if so.
    fn refused(&self, original: &ProcessSchedulingState) -> (r: PlatformResult<()>)
        ensures
            refusal(self@.online_path, self@.online, original@, self@.desired) == reply_error(r),
    {
        if self.desired.affinity.is_empty() {
            return Err(
                PlatformError::invalid(
                    self.online_path.as_str(),
                    "CPU affinity must not be empty",
                ),
            );
        }
        match &self.online {
            Err(e) => Err(copy_error(e)),
            Ok(cpus) => validate_desired(
                self.online_path.as_str(),
                cpus,
                original,
                &self.desired,
            ),
        }
    }

    /// Makes the step at a position, and after the last reads the outcome back.
    fn go_on(&mut self, original: ProcessSchedulingState, steps: Vec<Step>, at: usize) -> (action:
        SchedulingAction)
        requires
            seq_view(steps@) == forward_steps(original@, old(self).desired@),
            clamps_differ(original@, old(self).desired@) ==> original@.uclamp_min is Some
                && original@.uclamp_max is Some,
        ensures
            final(self).well_formed(),
            (Turn { state: final(self)@, action: action@ }) == going_on(
                old(self)@,
                original@,
                at as nat,
            ),
    {
        if at < steps.len() {
            assert(seq_view(steps@)[at as int] == steps@[at as int]@);
            let step = copy_step(&steps[at]);
            self.phase = SchedulingPhase::Apply { original, steps, at };
            SchedulingAction::Make(step)
        } else {
            self.phase = SchedulingPhase::ReadBack { original, steps };
            SchedulingAction::Read
        }
    }

    /// Makes the undoing step at a position, and after the last ends.
    fn go_back(&mut self, failure: PlatformError, undo: Vec<Step>, at: usize, failed: String) -> (action:
        SchedulingAction)
        ensures
            final(self).well_formed(),
            (Turn { state: final(self)@, action: action@ }) == going_back(
                old(self)@,
                failure@,
                seq_view(undo@),
                at as nat,
                failed@,
            ),
    {
        if at < undo.len() {
            assert(seq_view(undo@)[at as int] == undo@[at as int]@);
            let step = copy_step(&undo[at]);
            self.phase = SchedulingPhase::Undo { failure, undo, at, failed };
            SchedulingAction::Make(step)
        } else {
            self.phase = SchedulingPhase::Finished;
            SchedulingAction::Finish(
                Err(fail_transaction(self.process, failure, failed.as_str())),
            )
        }
    }

    /// Takes the first `made` steps back.
    fn fail(
        &mut self,
        original: &ProcessSchedulingState,
        steps: &Vec<Step>,
        made: usize,
        failure: PlatformError,
    ) -> (action: SchedulingAction)
        requires
            made <= steps@.len(),
            seq_view(steps@) == forward_steps(original@, old(self).desired@),
            clamps_differ(original@, old(self).desired@) ==> original@.uclamp_min is Some
                && original@.uclamp_max is Some,
        ensures
            final(self).well_formed(),
            (Turn { state: final(self)@, action: action@ }) == failing(
                old(self)@,
                original@,
                made as nat,
                failure@,
            ),
    {
        proof {
            assert forall|i: int| 0 <= i < steps@.len() && (#[trigger] steps@[i])@ is Uclamp implies original@.uclamp_min is Some
                && original@.uclamp_max is Some by {
                assert(seq_view(steps@)[i] == steps@[i]@);
                clamps_only_where_they_differ(original@, self.desired@, i);
            }
        }
        let undo = plan_undo(original, steps, made);
        let none = String::new();
        assert(none@ =~= Seq::<char>::empty());
        self.go_back(failure, undo, 0, none)
    }

    /// Takes over the state from before and makes the first step. Everything is
    /// checked before that.
    pub fn original_read(&mut self, reply: PlatformResult<ProcessSchedulingState>) -> (action:
        SchedulingAction)
        requires
            old(self).phase@ is ReadOriginal,
        ensures
            final(self).well_formed(),
            (Turn { state: final(self)@, action: action@ }) == after_original(
                old(self)@,
                state_view(reply),
            ),
    {
        match reply {
            Err(e) => {
                self.phase = SchedulingPhase::Finished;
                SchedulingAction::Finish(Err(e))
            },
            Ok(original) => {
                if let Err(e) = self.refused(&original) {
                    self.phase = SchedulingPhase::Finished;
                    return SchedulingAction::Finish(Err(e));
                }
                let steps = plan_steps(&original, &self.desired);
                self.go_on(original, steps, 0)
            },
        }
    }

    /// Takes over what became of a step, and makes the next one; after the last
    /// the outcome is read back, and after a failure the steps before it are
    /// taken back.
    pub fn stepped(&mut self, reply: PlatformResult<()>) -> (action: SchedulingAction)
        requires
            old(self).well_formed(),
            old(self).phase@ is Apply,
        ensures
            final(self).well_formed(),
            (Turn { state: final(self)@, action: action@ }) == after_step(
                old(self)@,
                old(self).phase@->Apply_original,
                old(self).phase@->Apply_at,
                reply_error(reply),
            ),
    {
        let mut phase = SchedulingPhase::Finished;
        std::mem::swap(&mut phase, &mut self.phase);
        match phase {
            SchedulingPhase::Apply { original, steps, at } => match reply {
                Ok(_) => self.go_on(original, steps, at + 1),
                Err(e) => self.fail(&original, &steps, at, e),
            },
            _ => SchedulingAction::Read,
        }
    }

    /// Takes over the outcome: the change is done where it is what was asked
    /// for, else all steps are taken back.
    pub fn read_back(&mut self, reply: PlatformResult<ProcessSchedulingState>) -> (action:
        SchedulingAction)
        requires
            old(self).well_formed(),
            old(self).phase@ is ReadBack,
        ensures
            final(self).well_formed(),
            (Turn { state: final(self)@, action: action@ }) == after_read_back(
                old(self)@,
                old(self).phase@->ReadBack_original,
                state_view(reply),
            ),
    {
        let mut phase = SchedulingPhase::Finished;
        std::mem::swap(&mut phase, &mut self.phase);
        match phase {
            SchedulingPhase::ReadBack { original, steps } => {
                let failure = match reply {
                    Err(e) => e,
                    Ok(actual) => {
                        if matches_desired(&actual, &self.desired) {
                            return SchedulingAction::Finish(Ok(actual));
                        }
                        let path = scheduling_path("/proc", self.process);
                        let requested = show_scheduling(&self.desired);
                        let got = show_scheduling(&actual);
                        let message = cat4(
                            "scheduler readback differs from request: requested ",
                            requested.as_str(),
                            ", got ",
                            got.as_str(),
                        );
                        PlatformError::invalid(path.as_str(), message.as_str())
                    },
                };
                let made: usize = steps.len();
                self.fail(&original, &steps, made, failure)
            },
            _ => SchedulingAction::Read,
        }
    }

    /// Takes over what became of an undoing step, and makes the next one
    /// whatever that was; after the last the change is over.
    pub fn undone(&mut self, reply: PlatformResult<()>) -> (action: SchedulingAction)
        requires
            old(self).well_formed(),
            old(self).phase@ is Undo,
        ensures
            final(self).well_formed(),
            (Turn { state: final(self)@, action: action@ }) == after_undo(
                old(self)@,
                old(self).phase@->Undo_failure,
                old(self).phase@->Undo_undo,
                old(self).phase@->Undo_at,
                old(self).phase@->Undo_failed,
                reply_error(reply),
            ),
    {
        let mut phase = SchedulingPhase::Finished;
        std::mem::swap(&mut phase, &mut self.phase);
        match phase {
            SchedulingPhase::Undo { failure, undo, at, failed } => {
                let mut failed = failed;
                assert(seq_view(undo@)[at as int] == undo@[at as int]@);
                assert(at < undo.len());
                if let Err(e) = reply {
                    if !failed.as_str().is_empty() {
                        failed.append("; ");
                    }
                    failed.append(step_name(&undo[at]));
                    failed.append(": ");
                    let why = e.message();
                    failed.append(why.as_str());
                }
                self.go_back(failure, undo, at + 1, failed)
            },
            _ => SchedulingAction::Read,
        }
    }

    /// Whether the steps that were made are being taken back.
    pub fn is_undoing(&self) -> (r: bool)
        ensures
            r == (self@.phase is Undo),
    {
        match &self.phase {
            SchedulingPhase::Undo { .. } => true,
            _ => false,
        }
    }
}

/// The reply to an action.
pub enum ReplyView {
    State(Result<SchedulingView, PlatformErrorView>),
    Done(Option<PlatformErrorView>),
}

/// What follows from the reply to the action that was due.
pub open spec fn answered(turn: Turn, reply: ReplyView) -> Turn {
    let t = turn.state;
    match reply {
        ReplyView::State(s) => match t.phase {
            SchedulingPhaseView::ReadOriginal => after_original(t, s),
            SchedulingPhaseView::ReadBack { original } => after_read_back(t, original, s),
            _ => turn,
        },
        ReplyView::Done(e) => match t.phase {
            SchedulingPhaseView::Apply { original, at } => after_step(t, original, at, e),
            SchedulingPhaseView::Undo { failure, undo, at, failed } => after_undo(
                t,
                failure,
                undo,
                at,
                failed,
                e,
            ),
            _ => turn,
        },
    }
}

/// Where a change stands after the first `n` replies.
#[verifier::opaque]
pub open spec fn run(start: Turn, given: Seq<ReplyView>, n: nat) -> Turn
    decreases n,
{
    if n == 0 {
        start
    } else {
        answered(run(start, given, (n - 1) as nat), given[n - 1])
    }
}

/// The first turn, and each further one, of a change.
pub proof fn run_unfolds(start: Turn, given: Seq<ReplyView>, n: nat)
    ensures
        run(start, given, 0) == start,
        run(start, given, n + 1) == answered(run(start, given, n), given[n as int]),
{
    reveal_with_fuel(run, 2);
}

/// A longer row of replies begins with the same turns.
pub(crate) proof fn run_prefix(start: Turn, a: Seq<ReplyView>, b: Seq<ReplyView>, n: nat)
    requires
        n <= a.len(),
        a.is_prefix_of(b),
    ensures
        run(start, a, n) == run(start, b, n),
    decreases n,
{
    run_unfolds(start, a, 0);
    run_unfolds(start, b, 0);
    if n > 0 {
        run_prefix(start, a, b, (n - 1) as nat);
        run_unfolds(start, a, (n - 1) as nat);
        run_unfolds(start, b, (n - 1) as nat);
        assert(b[n - 1] == a[n - 1]);
    }
}

/// Two rows of replies, one after the other.
pub(crate) proof fn run_joined(start: Turn, a: Seq<ReplyView>, b: Seq<ReplyView>, n: nat)
    requires
        n <= b.len(),
    ensures
        run(start, a + b, a.len() + n) == run(run(start, a, a.len()), b, n),
    decreases n,
{
    let turn = run(start, a, a.len());
    if n == 0 {
        run_prefix(start, a, a + b, a.len());
        run_unfolds(turn, b, 0);
    } else {
        run_joined(start, a, b, (n - 1) as nat);
        run_unfolds(start, a + b, (a.len() + n - 1) as nat);
        run_unfolds(turn, b, (n - 1) as nat);
        assert((a + b)[a.len() + n - 1] == b[n - 1]);
    }
}

/// Whether the first replies are the state from before and the success of the
/// first `made` steps.
pub open spec fn goes_well(
    start: Turn,
    original: SchedulingView,
    given: Seq<ReplyView>,
    made: nat,
) -> bool {
    let t = start.state;
    &&& t.phase is ReadOriginal
    &&& made <= forward_steps(original, t.desired).len()
    &&& refusal(t.online_path, t.online, original, t.desired) is None
    &&& given.len() > made
    &&& given[0] == ReplyView::State(Ok(original))
    &&& forall|i: int| 1 <= i <= made ==> #[trigger] given[i] == ReplyView::Done(None)
}

/// As long as all goes well, the steps are made one after the other, in their
/// order and with nothing between them, and after the last one the outcome is
/// read.
pub proof fn steps_are_made_in_order(
    start: Turn,
    original: SchedulingView,
    given: Seq<ReplyView>,
    made: nat,
)
    requires
        goes_well(start, original, given, made),
    ensures
        run(start, given, made + 1) == going_on(start.state, original, made),
        forall|i: nat|
            i <= made && i < forward_steps(original, start.state.desired).len() ==> (
            #[trigger] run(start, given, i + 1)).action == SchedulingActionView::Make(
                forward_steps(original, start.state.desired)[i as int],
            ),
    decreases made,
{
    if made == 0 {
        run_unfolds(start, given, 0);
    } else {
        steps_are_made_in_order(start, original, given, (made - 1) as nat);
        assert(given[made as int] == ReplyView::Done(None));
        run_unfolds(start, given, made);
        assert forall|i: nat|
            i <= made && i < forward_steps(original, start.state.desired).len() implies (
        #[trigger] run(start, given, i + 1)).action == SchedulingActionView::Make(
            forward_steps(original, start.state.desired)[i as int],
        ) by {
            if i < made {
                assert(i <= (made - 1) as nat);
            }
        }
    }
}

/// A change whose steps all succeed and whose outcome is what was asked for ends
/// with the outcome.
pub proof fn a_change_that_holds_succeeds(
    start: Turn,
    original: SchedulingView,
    actual: SchedulingView,
    given: Seq<ReplyView>,
)
    requires
        ({
            let made = forward_steps(original, start.state.desired).len();
            &&& goes_well(start, original, given, made)
            &&& given.len() == made + 2
            &&& given[made as int + 1] == ReplyView::State(Ok(actual))
        }),
        meets(actual, start.state.desired),
    ensures
        run(
            start,
            given,
            forward_steps(original, start.state.desired).len() + 1,
        ).action == SchedulingActionView::Read,
        run(start, given, given.len()).action == SchedulingActionView::Finish(Ok(actual)),
{
    let made = forward_steps(original, start.state.desired).len();
    steps_are_made_in_order(start, original, given, made);
    run_unfolds(start, given, made + 1);
}

/// Whether a change fails with the given number of steps made: at the next one,
/// or at the outcome where there is no next one.
pub open spec fn fails_at(
    start: Turn,
    original: SchedulingView,
    given: Seq<ReplyView>,
    made: nat,
    failure: PlatformErrorView,
) -> bool {
    let t = start.state;
    let steps = forward_steps(original, t.desired);
    &&& goes_well(start, original, given, made)
    &&& given.len() > made + 1
    &&& if made < steps.len() {
        given[made as int + 1] == ReplyView::Done(Some(failure))
    } else {
        match given[made as int + 1] {
            ReplyView::State(Err(e)) => failure == e,
            ReplyView::State(Ok(actual)) => !meets(actual, t.desired) && failure == readback_error(
                t.process,
                t.desired,
                actual,
            ),
            _ => false,
        }
    }
}

/// Whether the replies from a position on are those to undoing steps.
pub open spec fn undo_replies(
    given: Seq<ReplyView>,
    from: nat,
    undone: Seq<Option<PlatformErrorView>>,
) -> bool {
    &&& given.len() == from + undone.len()
    &&& forall|j: int| 0 <= j < undone.len() ==> #[trigger] given[from + j] == ReplyView::Done(undone[j])
}

proof fn undo_goes_on(
    t: SchedulingTransactionView,
    failure: PlatformErrorView,
    undo: Seq<StepView>,
    at: nat,
    failed: Seq<char>,
    reply: Option<PlatformErrorView>,
)
    requires
        at < undo.len(),
    ensures
        answered(going_back(t, failure, undo, at, failed), ReplyView::Done(reply)) == going_back(
            t,
            failure,
            undo,
            at + 1,
            with_failure(failed, undo[at as int], reply),
        ),
{
    let next = SchedulingPhaseView::Undo { failure, undo, at, failed };
    let turn = going_back(t, failure, undo, at, failed);
    assert(turn.state.phase == next);
    assert(after_undo(turn.state, failure, undo, at, failed, reply) == after_undo(
        t,
        failure,
        undo,
        at,
        failed,
        reply,
    ));
}

proof fn failure_turns_back(
    t: SchedulingTransactionView,
    original: SchedulingView,
    made: nat,
    reply: ReplyView,
    failure: PlatformErrorView,
)
    requires
        made <= forward_steps(original, t.desired).len(),
        if made < forward_steps(original, t.desired).len() {
            reply == ReplyView::Done(Some(failure))
        } else {
            match reply {
                ReplyView::State(Err(e)) => failure == e,
                ReplyView::State(Ok(actual)) => !meets(actual, t.desired) && failure
                    == readback_error(t.process, t.desired, actual),
                _ => false,
            }
        },
    ensures
        answered(going_on(t, original, made), reply) == failing(t, original, made, failure),
{
}

proof fn steps_are_taken_back(
    start: Turn,
    original: SchedulingView,
    given: Seq<ReplyView>,
    made: nat,
    failure: PlatformErrorView,
    undone: Seq<Option<PlatformErrorView>>,
    n: nat,
)
    requires
        fails_at(start, original, given, made, failure),
        undo_replies(given, made + 2, undone),
        undone.len() == made,
        n <= made,
    ensures
        ({
            let undo = undo_steps(original, forward_steps(original, start.state.desired), made);
            run(start, given, made + 2 + n) == going_back(
                start.state,
                failure,
                undo,
                n,
                failed_steps(undo, undone, n),
            )
        }),
    decreases n,
{
    let undo = undo_steps(original, forward_steps(original, start.state.desired), made);
    if n == 0 {
        steps_are_made_in_order(start, original, given, made);
        run_unfolds(start, given, made + 1);
        failure_turns_back(start.state, original, made, given[made as int + 1], failure);
    } else {
        let m = (n - 1) as nat;
        steps_are_taken_back(start, original, given, made, failure, undone, m);
        assert(given[made as int + 2 + m] == ReplyView::Done(undone[m as int]));
        run_unfolds(start, given, made + 2 + m);
        undo_goes_on(
            start.state,
            failure,
            undo,
            m,
            failed_steps(undo, undone, m),
            undone[m as int],
        );
    }
}

/// A change that fails, at a step or at its outcome, takes back exactly the
/// steps that were made, the last one first, each of them whatever became of the
/// others. It ends with the failure and all that failed while undoing.
pub proof fn a_change_that_fails_is_undone(
    start: Turn,
    original: SchedulingView,
    given: Seq<ReplyView>,
    made: nat,
    failure: PlatformErrorView,
    undone: Seq<Option<PlatformErrorView>>,
)
    requires
        fails_at(start, original, given, made, failure),
        undo_replies(given, made + 2, undone),
        undone.len() == made,
    ensures
        ({
            let undo = undo_steps(original, forward_steps(original, start.state.desired), made);
            &&& forall|j: nat|
                j < made ==> (#[trigger] run(start, given, made + 2 + j)).action
                    == SchedulingActionView::Make(undo[j as int])
            &&& run(start, given, given.len()).action == SchedulingActionView::Finish(
                Err(
                    transaction_error(
                        start.state.process,
                        failure,
                        failed_steps(undo, undone, made),
                    ),
                ),
            )
        }),
{
    let undo = undo_steps(original, forward_steps(original, start.state.desired), made);
    assert forall|j: nat| j < made implies (#[trigger] run(start, given, made + 2 + j)).action
        == SchedulingActionView::Make(undo[j as int]) by {
        steps_are_taken_back(start, original, given, made, failure, undone, j);
    }
    steps_are_taken_back(start, original, given, made, failure, undone, made);
}

/// Whether the action is the one that the phase calls for, and the change only
/// goes on where it was allowed, and only ends well where its outcome is what was
/// asked for.
pub open spec fn sound(turn: Turn) -> bool {
    let t = turn.state;
    match t.phase {
        SchedulingPhaseView::ReadOriginal => turn.action is Read,
        SchedulingPhaseView::Apply { original, at } => {
            &&& at < forward_steps(original, t.desired).len()
            &&& turn.action == SchedulingActionView::Make(
                forward_steps(original, t.desired)[at as int],
            )
            &&& refusal(t.online_path, t.online, original, t.desired) is None
        },
        SchedulingPhaseView::ReadBack { original } => {
            &&& turn.action is Read
            &&& refusal(t.online_path, t.online, original, t.desired) is None
        },
        SchedulingPhaseView::Undo { failure, undo, at, failed } => {
            &&& at < undo.len()
            &&& turn.action == SchedulingActionView::Make(undo[at as int])
        },
        SchedulingPhaseView::Finished => match turn.action {
            SchedulingActionView::Finish(Ok(actual)) => meets(actual, t.desired) && exists|
                original: SchedulingView,
            |
                #[trigger] refusal(t.online_path, t.online, original, t.desired) is None,
            SchedulingActionView::Finish(Err(_)) => true,
            _ => false,
        },
    }
}

/// However the calls are answered, a change ends well only where it was allowed
/// and its outcome is what was asked for.
pub proof fn success_is_what_was_asked_for(start: Turn, given: Seq<ReplyView>, n: nat)
    requires
        start.state.phase is ReadOriginal,
        start.action is Read,
        n <= given.len(),
    ensures
        sound(run(start, given, n)),
        ({
            let t = run(start, given, n).state;
            &&& t.process == start.state.process
            &&& t.desired == start.state.desired
            &&& t.online_path == start.state.online_path
            &&& t.online == start.state.online
        }),
    decreases n,
{
    run_unfolds(start, given, 0);
    if n > 0 {
        run_unfolds(start, given, (n - 1) as nat);
        success_is_what_was_asked_for(start, given, (n - 1) as nat);
        let before = run(start, given, (n - 1) as nat);
        if let SchedulingPhaseView::ReadBack { original } = before.state.phase {
            assert(refusal(
                before.state.online_path,
                before.state.online,
                original,
                before.state.desired,
            ) is None);
        }
    }
}

/// How many calls a change still makes at the most.
pub open spec fn calls_left(t: SchedulingTransactionView) -> nat {
    match t.phase {
        SchedulingPhaseView::ReadOriginal => 0,
        SchedulingPhaseView::Apply { original, at } => {
            let n = forward_steps(original, t.desired).len();
            if at <= 2 * n {
                (2 * n - at + 2) as nat
            } else {
                0
            }
        },
        SchedulingPhaseView::ReadBack { original } => forward_steps(original, t.desired).len() + 1,
        SchedulingPhaseView::Undo { failure, undo, at, failed } => if at <= undo.len() {
            (undo.len() - at) as nat
        } else {
            0
        },
        SchedulingPhaseView::Finished => 0,
    }
}

} // verus!
