//! The active workload: selection, clearing and periodic identity checks.

use vstd::prelude::*;
use vstd::utf8::encode_utf8;
use crate::api::{WorkloadRequest, WorkloadRequestView};
use crate::model::{ProcessIdentity, ProcessInfo, ProcessView, ProfileId, Scene};
use crate::number::{decimal_text, format_u64};
use crate::text::{cat2, texts};
use super::hints::{expiry, Hint};
use super::inputs::with_hint;
use super::names::{
    named_profile, parse_profile, receipt, unknown_profile, ErrorView, MutationReceipt, ReceiptView,
    RuntimeError,
};
use super::reload::PROCESS_IDENTITY_IN_FLIGHT;
use super::state::{
    evaluate, mutation_view, next, Action, ActionView, Counters, Gates, IdentityInFlight,
    IdentityPurpose, Model, RuntimeActor, SelectionView, Work,
};

verus! {

/// The longest audit reason, in bytes.
pub const REASON_MAX_BYTES: usize = 256;

/// Whether a caller waits for an identity lookup.
pub open spec fn control_in_flight(m: Model) -> bool {
    match m.work.identity_in_flight {
        Some(r) => r.is_control_request,
        None => false,
    }
}

/// The state after an identity lookup was started.
pub open spec fn identity_started(m: Model, pid: u32, purpose: IdentityPurpose) -> Model {
    let id = next(m.work.next_identity_id);
    Model {
        work: Work {
            next_identity_id: id,
            identity_in_flight: Some(
                IdentityInFlight { id, is_control_request: purpose.control() },
            ),
            ..m.work
        },
        ..m
    }.asks(ActionView::ReadIdentity { id, pid, purpose })
}

/// The answer to a mutation.
pub open spec fn answer(ticket: u64, result: Result<ReceiptView, ErrorView>) -> ActionView {
    ActionView::AnswerMutation { ticket, result }
}

/// A receipt over the given generation.
pub open spec fn receipt_view(
    generation: u64,
    changed_ids: Seq<Seq<char>>,
    message: Seq<char>,
) -> ReceiptView {
    ReceiptView { generation, changed_ids, message }
}

/// Why a workload request is refused outright, if so.
pub open spec fn request_error(m: Model, request: WorkloadRequestView) -> Option<ErrorView> {
    if request.pid == 0 {
        Some(ErrorView::InvalidArgument("workload PID must be non-zero"@))
    } else if encode_utf8(request.reason).len() > REASON_MAX_BYTES {
        Some(ErrorView::InvalidArgument("workload audit reason exceeds 256 bytes"@))
    } else if request.mode.len() > 0 && named_profile(request.mode) is None {
        Some(unknown_profile(request.mode))
    } else if control_in_flight(m) {
        Some(ErrorView::Conflict(PROCESS_IDENTITY_IN_FLIGHT@))
    } else {
        None
    }
}

/// The profile that a workload request asks for.
pub open spec fn requested_profile(request: WorkloadRequestView) -> Option<ProfileId> {
    if request.mode.len() == 0 {
        None
    } else {
        named_profile(request.mode)
    }
}

/// The state after a caller asked for a workload.
pub open spec fn select_started(
    m: Model,
    request: WorkloadRequestView,
    caller_uid: u32,
    ticket: u64,
) -> Model {
    match request_error(m, request) {
        Some(e) => m.asks(answer(ticket, Err(e))),
        None => identity_started(
            m,
            request.pid,
            IdentityPurpose::Select {
                pid: request.pid,
                requested_profile: requested_profile(request),
                caller_uid,
                ticket,
            },
        ),
    }
}

/// Whether a caller may not control a process: everyone but the superuser may
/// only control processes that run as that user in every respect.
pub open spec fn denied(caller_uid: u32, process: ProcessView) -> bool {
    caller_uid != 0 && (!process.owner_control_safe || process.identity.uid != caller_uid)
}

/// The identity of the active workload.
pub open spec fn active_identity(m: Model) -> Option<ProcessIdentity> {
    match m.selection.workload {
        Some(w) => Some(w.identity),
        None => None,
    }
}

/// The state with its control generation one step on and its tasks to be
/// looked at again.
pub open spec fn control_moved(m: Model) -> Model {
    Model {
        gates: Gates { scheduler_dirty: true, ..m.gates },
        counters: Counters { generation: next(m.counters.generation), ..m.counters },
        ..m
    }
}

/// How a workload is named in receipts.
pub open spec fn workload_tag(pid: u32) -> Seq<char> {
    "workload:"@ + decimal_text(pid as nat)
}

/// The state in which a process is the active workload.
pub open spec fn workload_selected(
    m: Model,
    profile: Option<ProfileId>,
    process: ProcessView,
    now: u64,
) -> Model {
    let chosen = Model {
        selection: SelectionView { workload: Some(process), profile, ..m.selection },
        ..m
    }.without_issue("workload.exited"@);
    control_moved(
        with_hint(
            chosen,
            Scene::Switch,
            Some(expiry(now, m.configuration.policy.input.switch_duration_ms)),
        ),
    ).asks(evaluate())
}

/// The state after the process that a caller asked for was looked up.
pub open spec fn select_finished(
    m: Model,
    pid: u32,
    profile: Option<ProfileId>,
    caller_uid: u32,
    ticket: u64,
    result: Result<ProcessView, Seq<char>>,
    now: u64,
) -> Model {
    match result {
        Err(e) => m.asks(answer(ticket, Err(ErrorView::NotFound(e)))),
        Ok(process) => if denied(caller_uid, process) {
            m.asks(
                answer(
                    ticket,
                    Err(
                        ErrorView::NotAuthorized(
                            "non-root callers may only select a process whose real/effective/saved/fs UIDs all equal their UID"@,
                        ),
                    ),
                ),
            )
        } else if active_identity(m) == Some(process.identity) && m.selection.profile == profile {
            m.asks(
                answer(
                    ticket,
                    Ok(
                        receipt_view(
                            m.counters.generation,
                            Seq::empty(),
                            "workload was already active"@,
                        ),
                    ),
                ),
            )
        } else {
            workload_selected(m, profile, process, now).asks(
                answer(
                    ticket,
                    Ok(
                        receipt_view(
                            next(m.counters.generation),
                            seq![workload_tag(pid)],
                            "active workload selected"@,
                        ),
                    ),
                ),
            )
        },
    }
}

/// The state after a caller asked to clear the workload.
pub open spec fn clear_started(m: Model, caller_uid: u32, ticket: u64) -> Model {
    match active_identity(m) {
        None => m.asks(
            answer(
                ticket,
                Ok(
                    receipt_view(
                        m.counters.generation,
                        Seq::empty(),
                        "no workload was active"@,
                    ),
                ),
            ),
        ),
        Some(expected) => if control_in_flight(m) {
            m.asks(answer(ticket, Err(ErrorView::Conflict(PROCESS_IDENTITY_IN_FLIGHT@))))
        } else {
            identity_started(
                m,
                expected.pid,
                IdentityPurpose::Clear { expected, caller_uid, ticket },
            )
        },
    }
}

/// The state without an active workload.
pub open spec fn workload_dropped(m: Model) -> Model {
    control_moved(
        Model {
            selection: SelectionView { workload: None, profile: None, ..m.selection },
            ..m
        },
    )
}

/// Why the workload is not cleared, if so.
pub open spec fn clear_error(
    m: Model,
    expected: ProcessIdentity,
    caller_uid: u32,
    result: Result<ProcessView, Seq<char>>,
) -> Option<ErrorView> {
    match result {
        Err(e) => Some(ErrorView::Conflict(e)),
        Ok(current) => match active_identity(m) {
            None => Some(
                ErrorView::Conflict(
                    "active workload changed while its identity was being verified"@,
                ),
            ),
            Some(active) => if active != expected || current.identity != expected {
                Some(ErrorView::Conflict("active workload exited or its PID was reused"@))
            } else if denied(caller_uid, current) {
                Some(
                    ErrorView::NotAuthorized(
                        "non-root callers may only clear a workload owned by their UID"@,
                    ),
                )
            } else {
                None
            },
        },
    }
}

/// The state after the workload that a caller wants cleared was looked up.
pub open spec fn clear_finished(
    m: Model,
    expected: ProcessIdentity,
    caller_uid: u32,
    ticket: u64,
    result: Result<ProcessView, Seq<char>>,
) -> Model {
    match clear_error(m, expected, caller_uid, result) {
        Some(e) => m.asks(answer(ticket, Err(e))),
        None => workload_dropped(m).asks(evaluate()).asks(
            answer(
                ticket,
                Ok(
                    receipt_view(
                        next(m.counters.generation),
                        seq![workload_tag(expected.pid)],
                        "active workload cleared"@,
                    ),
                ),
            ),
        ),
    }
}

/// The state after the workload was found to be gone.
pub open spec fn workload_exited(m: Model) -> Model {
    workload_dropped(m).with_issue(
        "workload.exited"@,
        "info"@,
        "workload"@,
        "the active workload exited or its PID was reused"@,
    ).asks(evaluate())
}

/// The state after a periodic check of the workload. What came of an earlier
/// workload changes nothing.
pub open spec fn refresh_finished(
    m: Model,
    expected: ProcessIdentity,
    result: Result<ProcessView, Seq<char>>,
) -> Model {
    if active_identity(m) != Some(expected) {
        m
    } else {
        match result {
            Ok(current) => if current.identity != expected {
                workload_exited(m)
            } else if Some(current) == m.selection.workload {
                m
            } else {
                control_moved(
                    Model {
                        selection: SelectionView { workload: Some(current), ..m.selection },
                        ..m
                    },
                ).asks(evaluate())
            },
            Err(_) => workload_exited(m),
        }
    }
}

/// The state after an identity lookup ended. Only the lookup that is on its way
/// counts; the result of a superseded one changes nothing.
pub open spec fn identity_finished(
    m: Model,
    id: u64,
    purpose: IdentityPurpose,
    result: Result<ProcessView, Seq<char>>,
    now: u64,
) -> Model {
    let current = match m.work.identity_in_flight {
        Some(r) => r.id == id,
        None => false,
    };
    let taken = Model { work: Work { identity_in_flight: None, ..m.work }, ..m };
    if !current {
        m
    } else {
        match purpose {
            IdentityPurpose::Select { pid, requested_profile, caller_uid, ticket } => select_finished(
                taken,
                pid,
                requested_profile,
                caller_uid,
                ticket,
                result,
                now,
            ),
            IdentityPurpose::Clear { expected, caller_uid, ticket } => clear_finished(
                taken,
                expected,
                caller_uid,
                ticket,
                result,
            ),
            IdentityPurpose::Refresh { expected } => refresh_finished(taken, expected, result),
        }
    }
}

/// The state after the periodic check fell due. A lookup on its way is not
/// doubled.
pub open spec fn check_started(m: Model) -> Model {
    match active_identity(m) {
        Some(expected) if m.work.identity_in_flight is None => identity_started(
            m,
            expected.pid,
            IdentityPurpose::Refresh { expected },
        ),
        _ => m,
    }
}

/// The view of the result of a lookup.
pub open spec fn lookup_view(r: Result<ProcessInfo, String>) -> Result<ProcessView, Seq<char>> {
    match r {
        Ok(p) => Ok(p@),
        Err(e) => Err(e@),
    }
}

/// Whether a caller may not control a process.
fn is_denied(caller_uid: u32, process: &ProcessInfo) -> (r: bool)
    ensures
        r == denied(caller_uid, process@),
{
    caller_uid != 0 && (!process.owner_control_safe || process.identity.uid != caller_uid)
}

/// How a workload is named in receipts.
fn tag_of(pid: u32) -> (out: String)
    ensures
        out@ == workload_tag(pid),
{
    let number = format_u64(pid as u64);
    cat2("workload:", number.as_str())
}

/// A list of one text.
pub(crate) fn one_text(s: String) -> (out: Vec<String>)
    ensures
        texts(out@) == seq![s@],
{
    let mut out: Vec<String> = Vec::new();
    out.push(s);
    assert(texts(out@) =~= seq![s@]);
    out
}

/// A receipt for no change.
pub(crate) fn empty_receipt(generation: u64, message: &str) -> (r: MutationReceipt)
    ensures
        r@ == receipt_view(generation, Seq::empty(), message@),
{
    let ids: Vec<String> = Vec::new();
    assert(texts(ids@) =~= Seq::<Seq<char>>::empty());
    receipt(generation, ids, message)
}

impl RuntimeActor {
    /// Answers a mutation.
    pub(crate) fn answer_mutation(&mut self, ticket: u64, result: Result<MutationReceipt, RuntimeError>)
        ensures
            final(self)@ == old(self)@.asks(answer(ticket, mutation_view(result))),
    {
        self.ask(Action::AnswerMutation { ticket, result });
    }

    /// The identity of the active workload.
    fn active_identity(&self) -> (r: Option<ProcessIdentity>)
        ensures
            r == active_identity(self@),
    {
        match &self.selection.workload {
            Some(w) => Some(w.identity),
            None => None,
        }
    }

    /// Whether a caller waits for an identity lookup.
    pub fn process_control_request_in_flight(&self) -> (r: bool)
        ensures
            r == control_in_flight(self@),
    {
        match self.work.identity_in_flight {
            Some(r) => r.is_control_request,
            None => false,
        }
    }

    /// Starts an identity lookup.
    fn start_process_identity_read(&mut self, pid: u32, purpose: IdentityPurpose)
        ensures
            final(self)@ == identity_started(old(self)@, pid, purpose),
    {
        let id: u64 = self.work.next_identity_id.saturating_add(1);
        self.work.next_identity_id = id;
        self.work.identity_in_flight = Some(
            IdentityInFlight { id, is_control_request: purpose.is_control_request() },
        );
        self.ask(Action::ReadIdentity { id, pid, purpose });
    }

    /// Checks a workload request and gives the profile it asks for.
    fn check_request(&self, request: &WorkloadRequest) -> (r: Result<
        Option<ProfileId>,
        RuntimeError,
    >)
        ensures
            match r {
                Ok(p) => request_error(self@, request@) is None && p == requested_profile(request@),
                Err(e) => request_error(self@, request@) == Some(e@),
            },
    {
        if request.pid == 0 {
            return Err(
                RuntimeError::InvalidArgument("workload PID must be non-zero".to_owned()),
            );
        }
        if request.reason.as_str().as_bytes().len() > REASON_MAX_BYTES {
            return Err(
                RuntimeError::InvalidArgument("workload audit reason exceeds 256 bytes".to_owned()),
            );
        }
        let mode = request.mode.as_str();
        let profile = if mode.is_empty() {
            None
        } else {
            match parse_profile(mode) {
                Ok(p) => Some(p),
                Err(e) => {
                    return Err(e);
                },
            }
        };
        if self.process_control_request_in_flight() {
            return Err(RuntimeError::Conflict(PROCESS_IDENTITY_IN_FLIGHT.to_owned()));
        }
        Ok(profile)
    }

    /// Takes over the request to follow a process.
    pub fn start_set_workload(&mut self, request: &WorkloadRequest, caller_uid: u32, ticket: u64)
        ensures
            final(self)@ == select_started(old(self)@, request@, caller_uid, ticket),
    {
        match self.check_request(request) {
            Err(e) => {
                self.answer_mutation(ticket, Err(e));
            },
            Ok(requested_profile) => {
                self.start_process_identity_read(
                    request.pid,
                    IdentityPurpose::Select {
                        pid: request.pid,
                        requested_profile,
                        caller_uid,
                        ticket,
                    },
                );
            },
        }
    }

    /// Moves the control generation on.
    fn move_control(&mut self)
        ensures
            final(self)@ == control_moved(old(self)@),
    {
        self.gates.scheduler_dirty = true;
        self.counters.generation = self.counters.generation.saturating_add(1);
    }

    /// Makes a process the active workload.
    fn select_workload(&mut self, profile: Option<ProfileId>, process: ProcessInfo, now: u64)
        ensures
            final(self)@ == workload_selected(old(self)@, profile, process@, now),
    {
        self.selection.workload = Some(process);
        self.selection.profile = profile;
        self.withdraw("workload.exited");
        let duration: u64 = self.configuration.policy.input.switch_duration_ms;
        self.observed.hints.activate(Hint::with_ttl(Scene::Switch, now, duration));
        self.move_control();
        self.ask(Action::Evaluate { then_barriers: false });
    }

    /// Takes over the process that a caller asked for.
    fn complete_set_workload(
        &mut self,
        pid: u32,
        profile: Option<ProfileId>,
        caller_uid: u32,
        ticket: u64,
        result: Result<ProcessInfo, String>,
        now: u64,
    )
        ensures
            final(self)@ == select_finished(
                old(self)@,
                pid,
                profile,
                caller_uid,
                ticket,
                lookup_view(result),
                now,
            ),
    {
        match result {
            Err(e) => {
                self.answer_mutation(ticket, Err(RuntimeError::NotFound(e)));
            },
            Ok(process) => {
                if is_denied(caller_uid, &process) {
                    self.answer_mutation(
                        ticket,
                        Err(
                            RuntimeError::NotAuthorized(
                                "non-root callers may only select a process whose real/effective/saved/fs UIDs all equal their UID".to_owned(),
                            ),
                        ),
                    );
                    return;
                }
                let unchanged = self.active_identity() == Some(process.identity)
                    && self.selection.profile == profile;
                if unchanged {
                    let r = empty_receipt(
                        self.counters.generation,
                        "workload was already active",
                    );
                    self.answer_mutation(ticket, Ok(r));
                    return;
                }
                self.select_workload(profile, process, now);
                let r = receipt(
                    self.counters.generation,
                    one_text(tag_of(pid)),
                    "active workload selected",
                );
                self.answer_mutation(ticket, Ok(r));
            },
        }
    }

    /// Takes over the request to clear the workload.
    pub fn start_clear_workload(&mut self, caller_uid: u32, ticket: u64)
        ensures
            final(self)@ == clear_started(old(self)@, caller_uid, ticket),
    {
        match self.active_identity() {
            None => {
                let r = empty_receipt(self.counters.generation, "no workload was active");
                self.answer_mutation(ticket, Ok(r));
            },
            Some(expected) => {
                if self.process_control_request_in_flight() {
                    self.answer_mutation(
                        ticket,
                        Err(RuntimeError::Conflict(PROCESS_IDENTITY_IN_FLIGHT.to_owned())),
                    );
                    return;
                }
                self.start_process_identity_read(
                    expected.pid,
                    IdentityPurpose::Clear { expected, caller_uid, ticket },
                );
            },
        }
    }

    /// Drops the active workload.
    fn drop_workload(&mut self)
        ensures
            final(self)@ == workload_dropped(old(self)@),
    {
        self.selection.workload = None;
        self.selection.profile = None;
        self.move_control();
    }

    /// Why the workload is not cleared, if so.
    fn check_clear(
        &self,
        expected: ProcessIdentity,
        caller_uid: u32,
        result: &Result<ProcessInfo, String>,
    ) -> (r: Option<RuntimeError>)
        ensures
            match r {
                Some(e) => clear_error(self@, expected, caller_uid, lookup_view(*result)) == Some(e@),
                None => clear_error(self@, expected, caller_uid, lookup_view(*result)) is None,
            },
    {
        match result {
            Err(e) => Some(RuntimeError::Conflict(e.clone())),
            Ok(current) => match self.active_identity() {
                None => Some(
                    RuntimeError::Conflict(
                        "active workload changed while its identity was being verified".to_owned(),
                    ),
                ),
                Some(active) => if active != expected || current.identity != expected {
                    Some(
                        RuntimeError::Conflict(
                            "active workload exited or its PID was reused".to_owned(),
                        ),
                    )
                } else if is_denied(caller_uid, current) {
                    Some(
                        RuntimeError::NotAuthorized(
                            "non-root callers may only clear a workload owned by their UID".to_owned(),
                        ),
                    )
                } else {
                    None
                },
            },
        }
    }

    /// Takes over the workload that a caller wants cleared.
    fn complete_clear_workload(
        &mut self,
        expected: ProcessIdentity,
        caller_uid: u32,
        ticket: u64,
        result: &Result<ProcessInfo, String>,
    )
        ensures
            final(self)@ == clear_finished(
                old(self)@,
                expected,
                caller_uid,
                ticket,
                lookup_view(*result),
            ),
    {
        match self.check_clear(expected, caller_uid, result) {
            Some(e) => {
                self.answer_mutation(ticket, Err(e));
            },
            None => {
                self.drop_workload();
                self.ask(Action::Evaluate { then_barriers: false });
                let r = receipt(
                    self.counters.generation,
                    one_text(tag_of(expected.pid)),
                    "active workload cleared",
                );
                self.answer_mutation(ticket, Ok(r));
            },
        }
    }

    /// Drops a workload that is gone.
    fn clear_exited_workload(&mut self)
        ensures
            final(self)@ == workload_exited(old(self)@),
    {
        self.drop_workload();
        self.report(
            "workload.exited",
            "info",
            "workload",
            "the active workload exited or its PID was reused",
        );
        self.ask(Action::Evaluate { then_barriers: false });
    }

    /// Takes over a periodic check of the workload.
    fn complete_workload_refresh(
        &mut self,
        expected: ProcessIdentity,
        result: Result<ProcessInfo, String>,
    )
        ensures
            final(self)@ == refresh_finished(old(self)@, expected, lookup_view(result)),
    {
        if self.active_identity() != Some(expected) {
            return;
        }
        match result {
            Err(_) => {
                self.clear_exited_workload();
            },
            Ok(current) => {
                if current.identity != expected {
                    self.clear_exited_workload();
                    return;
                }
                let unchanged = match &self.selection.workload {
                    Some(w) => current.same_as(w),
                    None => false,
                };
                if unchanged {
                    return;
                }
                self.selection.workload = Some(current);
                self.move_control();
                self.ask(Action::Evaluate { then_barriers: false });
            },
        }
    }

    /// Takes over the end of an identity lookup.
    pub fn finish_process_identity(
        &mut self,
        id: u64,
        purpose: IdentityPurpose,
        result: Result<ProcessInfo, String>,
        now: u64,
    )
        ensures
            final(self)@ == identity_finished(old(self)@, id, purpose, lookup_view(result), now),
    {
        let current = match self.work.identity_in_flight {
            Some(r) => r.id == id,
            None => false,
        };
        if !current {
            return;
        }
        self.work.identity_in_flight = None;
        match purpose {
            IdentityPurpose::Select { pid, requested_profile, caller_uid, ticket } => {
                self.complete_set_workload(
                    pid,
                    requested_profile,
                    caller_uid,
                    ticket,
                    result,
                    now,
                );
            },
            IdentityPurpose::Clear { expected, caller_uid, ticket } => {
                self.complete_clear_workload(expected, caller_uid, ticket, &result);
            },
            IdentityPurpose::Refresh { expected } => {
                self.complete_workload_refresh(expected, result);
            },
        }
    }

    /// Checks that the workload still runs, unless a lookup is on its way.
    pub fn check_workload_identity(&mut self)
        ensures
            final(self)@ == check_started(old(self)@),
    {
        if self.work.identity_in_flight.is_some() {
            return;
        }
        match self.active_identity() {
            Some(expected) => {
                self.start_process_identity_read(
                    expected.pid,
                    IdentityPurpose::Refresh { expected },
                );
            },
            None => {},
        }
    }
}

/// A result that nobody waits for any more never clears or rewrites the
/// workload, nor anything else.
pub proof fn superseded_lookup_changes_nothing(
    m: Model,
    id: u64,
    purpose: IdentityPurpose,
    result: Result<ProcessView, Seq<char>>,
    now: u64,
)
    requires
        match m.work.identity_in_flight {
            Some(r) => r.id != id,
            None => true,
        },
    ensures
        identity_finished(m, id, purpose, result, now) == m,
{
}

/// A new lookup never has the identifier of the one on its way, so that a late
/// result of the earlier one is told apart.
pub proof fn lookups_are_told_apart(m: Model, pid: u32, purpose: IdentityPurpose)
    requires
        m.work.next_identity_id < u64::MAX,
        match m.work.identity_in_flight {
            Some(r) => r.id <= m.work.next_identity_id,
            None => true,
        },
    ensures
        ({
            let after = identity_started(m, pid, purpose);
            &&& after.work.identity_in_flight is Some
            &&& match m.work.identity_in_flight {
                Some(r) => r.id != after.work.identity_in_flight->0.id,
                None => true,
            }
            &&& after.work.identity_in_flight->0.id <= after.work.next_identity_id
        }),
{
}

/// Nobody but the superuser changes the workload over a process that does not
/// run as that user in every respect.
pub proof fn foreign_processes_stay_untouched(
    m: Model,
    pid: u32,
    profile: Option<ProfileId>,
    caller_uid: u32,
    ticket: u64,
    process: ProcessView,
    now: u64,
)
    requires
        denied(caller_uid, process),
    ensures
        select_finished(m, pid, profile, caller_uid, ticket, Ok(process), now).selection
            == m.selection,
        clear_finished(m, process.identity, caller_uid, ticket, Ok(process)).selection
            == m.selection,
{
}

/// A reused process number is not the workload: the check clears it.
pub proof fn reused_pid_is_not_the_workload(
    m: Model,
    expected: ProcessIdentity,
    current: ProcessView,
)
    requires
        active_identity(m) == Some(expected),
        current.identity != expected,
    ensures
        refresh_finished(m, expected, Ok(current)).selection.workload is None,
{
}

} // verus!
