//! The client's side of the connection to the daemon: which calls a command
//! makes, what an error means, and when to connect again.

use vstd::prelude::*;
use crate::api::{
    AppRule, Capabilities, ClientError, DaemonStatus, FrequencyOverride, RunningWorkload,
    TelemetrySnapshot, WorkloadRequest, RUNNING_WORKLOADS,
};
use crate::text::{cat2, cat3, cat5, ends_with, has_suffix, same};
use super::format::{delay_text, format_retry_delay, WorkloadClearTarget};
use super::i18n::{translate, translation, Language};
use super::view_model::ReporterState;

verus! {

/// The unit of the daemon.
pub const SERVICE_UNIT: &'static str = "uperf-linux.service";

/// The first pause before a new connection, in milliseconds.
pub const INITIAL_RECONNECT_DELAY: u64 = 250;

/// The longest pause before a new connection, in milliseconds.
pub const MAX_RECONNECT_DELAY: u64 = 8_000;

/// How often the daemon's unit is asked for its state.
pub const ACTIVATION_POLLS: u32 = 50;

/// The pause between two such questions, in milliseconds.
pub const ACTIVATION_POLL_INTERVAL: u64 = 100;

/// What the user asked for.
#[derive(Debug)]
pub enum ClientCommand {
    SetMode(String),
    SetFrequency(FrequencyOverride),
    ClearFrequency(String),
    ClearAllFrequency(Vec<String>),
    SetWorkload(WorkloadRequest),
    ClearWorkload(WorkloadClearTarget),
    SetAppRule(AppRule),
    RemoveAppRule(String),
    ReloadConfig,
    EnableAndStartService,
}

/// What kind of refusal a request met.
#[derive(Clone, Copy, Debug, PartialEq, Eq, Structural)]
pub enum RequestErrorKind {
    NotAuthorized,
    InvalidRequest,
    IncompatibleApi,
    Rejected,
}

impl RequestErrorKind {
    /// The label in English.
    pub open spec fn english(self) -> Seq<char> {
        match self {
            RequestErrorKind::NotAuthorized => "Not authorized"@,
            RequestErrorKind::InvalidRequest => "Invalid request"@,
            RequestErrorKind::IncompatibleApi => "Incompatible API"@,
            RequestErrorKind::Rejected => "Request rejected"@,
        }
    }

    /// The label in a language.
    pub fn label(self, language: Language) -> (r: &'static str)
        ensures
            r@ == translation(language, self.english()),
    {
        match self {
            RequestErrorKind::NotAuthorized => translate(language, "Not authorized"),
            RequestErrorKind::InvalidRequest => translate(language, "Invalid request"),
            RequestErrorKind::IncompatibleApi => translate(language, "Incompatible API"),
            RequestErrorKind::Rejected => translate(language, "Request rejected"),
        }
    }
}

/// What an error means for the connection.
#[derive(Clone, Copy, Debug, PartialEq, Eq, Structural)]
pub enum ErrorDisposition {
    ConnectionLost,
    Request(RequestErrorKind),
}

/// Whether the name of a bus error says that the daemon is out of reach.
pub open spec fn connection_error(name: Seq<char>) -> bool {
    name == "org.freedesktop.DBus.Error.ServiceUnknown"@ || name
        == "org.freedesktop.DBus.Error.NameHasNoOwner"@ || name
        == "org.freedesktop.DBus.Error.NoReply"@ || name
        == "org.freedesktop.DBus.Error.Disconnected"@ || name
        == "org.freedesktop.DBus.Error.TimedOut"@
}

/// Whether the name of a bus error says that the daemon is out of reach.
pub fn is_connection_error_name(name: &str) -> (r: bool)
    ensures
        r == connection_error(name@),
{
    same(name, "org.freedesktop.DBus.Error.ServiceUnknown") || same(
        name,
        "org.freedesktop.DBus.Error.NameHasNoOwner",
    ) || same(name, "org.freedesktop.DBus.Error.NoReply") || same(
        name,
        "org.freedesktop.DBus.Error.Disconnected",
    ) || same(name, "org.freedesktop.DBus.Error.TimedOut")
}

/// What an error means for the connection. A refusal is no disconnection.
pub open spec fn disposition(error: ClientError) -> ErrorDisposition {
    match error {
        ClientError::Transport(_) => ErrorDisposition::ConnectionLost,
        ClientError::IncompatibleApi { client, server } => ErrorDisposition::Request(
            RequestErrorKind::IncompatibleApi,
        ),
        ClientError::InvalidRequest(_) => ErrorDisposition::Request(
            RequestErrorKind::InvalidRequest,
        ),
        ClientError::Remote { name, message } => if connection_error(name@) {
            ErrorDisposition::ConnectionLost
        } else if has_suffix(name@, ".NotAuthorized"@) {
            ErrorDisposition::Request(RequestErrorKind::NotAuthorized)
        } else if has_suffix(name@, ".InvalidArgument"@) || has_suffix(
            name@,
            ".ValidationFailed"@,
        ) {
            ErrorDisposition::Request(RequestErrorKind::InvalidRequest)
        } else {
            ErrorDisposition::Request(RequestErrorKind::Rejected)
        },
    }
}

/// What an error means for the connection.
pub fn classify_client_error(error: &ClientError) -> (r: ErrorDisposition)
    ensures
        r == disposition(*error),
{
    match error {
        ClientError::Transport(_) => ErrorDisposition::ConnectionLost,
        ClientError::IncompatibleApi { client: _, server: _ } => ErrorDisposition::Request(
            RequestErrorKind::IncompatibleApi,
        ),
        ClientError::InvalidRequest(_) => ErrorDisposition::Request(
            RequestErrorKind::InvalidRequest,
        ),
        ClientError::Remote { name, message: _ } => {
            if is_connection_error_name(name.as_str()) {
                ErrorDisposition::ConnectionLost
            } else if ends_with(name.as_str(), ".NotAuthorized") {
                ErrorDisposition::Request(RequestErrorKind::NotAuthorized)
            } else if ends_with(name.as_str(), ".InvalidArgument") || ends_with(
                name.as_str(),
                ".ValidationFailed",
            ) {
                ErrorDisposition::Request(RequestErrorKind::InvalidRequest)
            } else {
                ErrorDisposition::Request(RequestErrorKind::Rejected)
            }
        },
    }
}

/// The connection as it is shown.
#[derive(Debug, PartialEq, Eq)]
pub enum ConnectionState {
    Connecting,
    Connected,
    /// The pause is in milliseconds.
    Reconnecting { delay: u64, reason: String },
    Unavailable(String),
}

/// The line that shows a connection in a language.
pub open spec fn connection_line(language: Language, state: ConnectionState) -> Seq<char> {
    match state {
        ConnectionState::Connecting => translation(language, "Connecting…"@),
        ConnectionState::Connected => translation(language, "Connected"@),
        ConnectionState::Reconnecting { delay, reason } => translation(
            language,
            "Disconnected"@,
        ) + " · "@ + translation(language, "retrying in"@) + " "@ + delay_text(language, delay)
            + " · "@ + reason@,
        ConnectionState::Unavailable(message) => translation(language, "Unavailable"@) + " · "@
            + message@,
    }
}

/// The line that shows a connection in a language.
pub fn connection_text(language: Language, state: &ConnectionState) -> (out: String)
    ensures
        out@ == connection_line(language, *state),
{
    match state {
        ConnectionState::Connecting => translate(language, "Connecting…").to_owned(),
        ConnectionState::Connected => translate(language, "Connected").to_owned(),
        ConnectionState::Reconnecting { delay, reason } => {
            let pause = format_retry_delay(language, *delay);
            let head = cat5(
                translate(language, "Disconnected"),
                " · ",
                translate(language, "retrying in"),
                " ",
                pause.as_str(),
            );
            cat3(head.as_str(), " · ", reason.as_str())
        },
        ConnectionState::Unavailable(message) => cat3(
            translate(language, "Unavailable"),
            " · ",
            message.as_str(),
        ),
    }
}

/// What the connection tells the window.
#[derive(Debug)]
pub enum UiEvent {
    Snapshot {
        capabilities: Capabilities,
        status: DaemonStatus,
        rules: Vec<AppRule>,
        workloads: Vec<RunningWorkload>,
    },
    Status(DaemonStatus),
    Capabilities(Capabilities),
    Telemetry(TelemetrySnapshot),
    AppRules(Vec<AppRule>),
    RunningWorkloads(Vec<RunningWorkload>),
    Notice(String),
    Connection(ConnectionState),
    RequestError { kind: RequestErrorKind, message: String },
    ServiceActivationStarted,
    ServiceActivationFinished(Result<(), String>),
    Reporter(ReporterState),
}

/// The pauses between attempts to connect.
#[derive(Clone, Copy, Debug, PartialEq, Eq, Structural)]
pub struct ReconnectBackoff {
    /// The next pause in milliseconds.
    pub next: u64,
}

impl ReconnectBackoff {
    /// The shortest pause comes first.
    pub fn new() -> (b: Self)
        ensures
            b.next == INITIAL_RECONNECT_DELAY,
    {
        ReconnectBackoff { next: INITIAL_RECONNECT_DELAY }
    }

    /// The next pause; the one behind it is twice as long, up to the longest.
    pub fn next_delay(&mut self) -> (r: u64)
        ensures
            r == old(self).next,
            final(self).next == (if old(self).next * 2 > MAX_RECONNECT_DELAY {
                MAX_RECONNECT_DELAY as int
            } else {
                old(self).next * 2
            }),
    {
        let delay: u64 = self.next;
        self.next = if delay > MAX_RECONNECT_DELAY / 2 {
            MAX_RECONNECT_DELAY
        } else {
            delay * 2
        };
        delay
    }

    /// Starts over with the shortest pause.
    pub fn reset(&mut self)
        ensures
            final(self).next == INITIAL_RECONNECT_DELAY,
    {
        self.next = INITIAL_RECONNECT_DELAY;
    }
}

/// The pause after `n` failed attempts in a row.
pub open spec fn pause_after(n: nat) -> int
    decreases n,
{
    if n == 0 {
        INITIAL_RECONNECT_DELAY as int
    } else {
        let before = pause_after((n - 1) as nat);
        if before * 2 > MAX_RECONNECT_DELAY {
            MAX_RECONNECT_DELAY as int
        } else {
            before * 2
        }
    }
}

/// Pauses never get shorter from one failure to the next, nor longer than the
/// longest.
pub proof fn pauses_are_bounded(n: nat)
    ensures
        INITIAL_RECONNECT_DELAY <= pause_after(n) <= MAX_RECONNECT_DELAY,
        pause_after(n) <= pause_after(n + 1),
    decreases n,
{
    if n > 0 {
        pauses_are_bounded((n - 1) as nat);
    }
}

/// A call on the daemon.
#[derive(Debug)]
pub enum Call {
    SetMode(String),
    SetFrequencyOverrides(Vec<FrequencyOverride>),
    ClearFrequencyOverrides(Vec<String>),
    SetActiveWorkload(WorkloadRequest),
    ClearActiveWorkload,
    ClearForegroundProcess,
    SetAppRule(AppRule),
    RemoveAppRule(String),
    ReloadConfig,
}

/// What a command asks for.
#[derive(Debug)]
pub enum Plan {
    /// Enable and start the daemon's unit.
    Service,
    /// Call the daemon, and read again what the call may have changed.
    Daemon { call: Call, refresh_rules: bool, refresh_workloads: bool },
}

/// Whether a plan is the one of a command.
pub open spec fn plans(command: ClientCommand, plan: Plan) -> bool {
    match plan {
        Plan::Service => command is EnableAndStartService,
        Plan::Daemon { call, refresh_rules, refresh_workloads } => {
            &&& refresh_rules == (command is SetAppRule || command is RemoveAppRule)
            &&& refresh_workloads == (command is SetWorkload || command is ClearWorkload)
            &&& match command {
                ClientCommand::SetMode(mode) => call == Call::SetMode(mode),
                ClientCommand::SetFrequency(request) => call is SetFrequencyOverrides
                    && call->SetFrequencyOverrides_0@ == seq![request],
                ClientCommand::ClearFrequency(id) => call is ClearFrequencyOverrides
                    && call->ClearFrequencyOverrides_0@ == seq![id],
                ClientCommand::ClearAllFrequency(ids) => call == Call::ClearFrequencyOverrides(ids),
                ClientCommand::SetWorkload(request) => call == Call::SetActiveWorkload(request),
                ClientCommand::ClearWorkload(WorkloadClearTarget::Explicit) => call
                    is ClearActiveWorkload,
                ClientCommand::ClearWorkload(WorkloadClearTarget::Focus) => call
                    is ClearForegroundProcess,
                ClientCommand::SetAppRule(rule) => call == Call::SetAppRule(rule),
                ClientCommand::RemoveAppRule(id) => call == Call::RemoveAppRule(id),
                ClientCommand::ReloadConfig => call is ReloadConfig,
                ClientCommand::EnableAndStartService => false,
            }
        },
    }
}

/// What a command asks for.
pub fn plan_command(command: ClientCommand) -> (plan: Plan)
    ensures
        plans(command, plan),
{
    match command {
        ClientCommand::EnableAndStartService => Plan::Service,
        ClientCommand::SetMode(mode) => Plan::Daemon {
            call: Call::SetMode(mode),
            refresh_rules: false,
            refresh_workloads: false,
        },
        ClientCommand::SetFrequency(request) => {
            let mut requests: Vec<FrequencyOverride> = Vec::new();
            requests.push(request);
            assert(requests@ =~= seq![request]);
            Plan::Daemon {
                call: Call::SetFrequencyOverrides(requests),
                refresh_rules: false,
                refresh_workloads: false,
            }
        },
        ClientCommand::ClearFrequency(id) => {
            let mut ids: Vec<String> = Vec::new();
            ids.push(id);
            assert(ids@ =~= seq![id]);
            Plan::Daemon {
                call: Call::ClearFrequencyOverrides(ids),
                refresh_rules: false,
                refresh_workloads: false,
            }
        },
        ClientCommand::ClearAllFrequency(ids) => Plan::Daemon {
            call: Call::ClearFrequencyOverrides(ids),
            refresh_rules: false,
            refresh_workloads: false,
        },
        ClientCommand::SetWorkload(request) => Plan::Daemon {
            call: Call::SetActiveWorkload(request),
            refresh_rules: false,
            refresh_workloads: true,
        },
        ClientCommand::ClearWorkload(target) => Plan::Daemon {
            call: match target {
                WorkloadClearTarget::Explicit => Call::ClearActiveWorkload,
                WorkloadClearTarget::Focus => Call::ClearForegroundProcess,
            },
            refresh_rules: false,
            refresh_workloads: true,
        },
        ClientCommand::SetAppRule(rule) => Plan::Daemon {
            call: Call::SetAppRule(rule),
            refresh_rules: true,
            refresh_workloads: false,
        },
        ClientCommand::RemoveAppRule(id) => Plan::Daemon {
            call: Call::RemoveAppRule(id),
            refresh_rules: true,
            refresh_workloads: false,
        },
        ClientCommand::ReloadConfig => Plan::Daemon {
            call: Call::ReloadConfig,
            refresh_rules: false,
            refresh_workloads: false,
        },
    }
}

/// What a session does next.
#[derive(Clone, Copy, Debug, PartialEq, Eq, Structural)]
pub enum Refresh {
    Status,
    Capabilities,
    AppRules,
    RunningWorkloads,
}

/// What is read again behind a call, whether or not it was refused: the state
/// always, the rules and the workloads where the call may change them.
pub open spec fn refreshes(rules: bool, workloads: bool) -> Seq<Refresh> {
    let a = seq![Refresh::Status];
    let b = if rules {
        a.push(Refresh::AppRules)
    } else {
        a
    };
    if workloads {
        b.push(Refresh::RunningWorkloads)
    } else {
        b
    }
}

/// What is read again behind a call.
pub fn refresh_steps(rules: bool, workloads: bool) -> (out: Vec<Refresh>)
    ensures
        out@ == refreshes(rules, workloads),
{
    let mut out: Vec<Refresh> = Vec::new();
    out.push(Refresh::Status);
    if rules {
        out.push(Refresh::AppRules);
    }
    if workloads {
        out.push(Refresh::RunningWorkloads);
    }
    assert(out@ =~= refreshes(rules, workloads));
    out
}

/// What a failed call means: the end of the session, or an event to show.
pub fn report_client_error(error: &ClientError, message: String) -> (r: Result<UiEvent, String>)
    ensures
        match disposition(*error) {
            ErrorDisposition::ConnectionLost => r == Err::<UiEvent, String>(message),
            ErrorDisposition::Request(kind) => r == Ok::<UiEvent, String>(
                UiEvent::RequestError { kind, message },
            ),
        },
{
    match classify_client_error(error) {
        ErrorDisposition::ConnectionLost => Err(message),
        ErrorDisposition::Request(kind) => Ok(UiEvent::RequestError { kind, message }),
    }
}

/// What the outcome of a call means: the end of the session, or an event to
/// show and what to read again.
pub fn finish_call(
    result: Result<String, (ClientError, String)>,
    refresh_rules: bool,
    refresh_workloads: bool,
) -> (r: Result<(UiEvent, Vec<Refresh>), String>)
    ensures
        match result {
            Ok(message) => r is Ok && r->Ok_0.0 == UiEvent::Notice(message) && r->Ok_0.1@
                == refreshes(refresh_rules, refresh_workloads),
            Err((error, message)) => match disposition(error) {
                ErrorDisposition::ConnectionLost => r is Err && r->Err_0 == message,
                ErrorDisposition::Request(kind) => r is Ok && r->Ok_0.0 == (
                UiEvent::RequestError { kind, message }) && r->Ok_0.1@ == refreshes(
                    refresh_rules,
                    refresh_workloads,
                ),
            },
        },
{
    match result {
        Ok(message) => Ok(
            (UiEvent::Notice(message), refresh_steps(refresh_rules, refresh_workloads)),
        ),
        Err((error, message)) => match report_client_error(&error, message) {
            Err(message) => Err(message),
            Ok(event) => Ok((event, refresh_steps(refresh_rules, refresh_workloads))),
        },
    }
}

/// What becomes of a session whose first picture could not be had.
#[derive(Debug)]
pub enum FirstFailure {
    /// Connect again, for this reason.
    Retry(String),
    /// Give up: show the refusal, then that the daemon is unavailable.
    GiveUp { refusal: UiEvent, unavailable: UiEvent },
}

/// What becomes of a session whose first picture could not be had. A refusal
/// will not go away by connecting again.
pub fn first_picture_failed(error: &ClientError, message: String) -> (r: FirstFailure)
    ensures
        match disposition(*error) {
            ErrorDisposition::ConnectionLost => r == FirstFailure::Retry(message),
            ErrorDisposition::Request(kind) => match r {
                FirstFailure::GiveUp { refusal, unavailable } => {
                    &&& refusal is RequestError
                    &&& refusal->RequestError_kind == kind
                    &&& refusal->RequestError_message@ == message@
                    &&& unavailable == UiEvent::Connection(ConnectionState::Unavailable(message))
                },
                _ => false,
            },
        },
{
    match classify_client_error(error) {
        ErrorDisposition::ConnectionLost => FirstFailure::Retry(message),
        ErrorDisposition::Request(kind) => FirstFailure::GiveUp {
            refusal: UiEvent::RequestError { kind, message: message.as_str().to_owned() },
            unavailable: UiEvent::Connection(ConnectionState::Unavailable(message)),
        },
    }
}

/// Whether the daemon is asked for running workloads.
pub fn wants_workloads(capabilities: &Capabilities) -> (r: bool)
    ensures
        r == capabilities@.features.contains(RUNNING_WORKLOADS@),
{
    capabilities.supports(RUNNING_WORKLOADS)
}

/// A change of the daemon's owner on the bus.
#[derive(Clone, Copy, Debug, PartialEq, Eq, Structural)]
pub enum OwnerChange {
    Replaced,
    Left,
    Ended,
}

/// A signal of the session; a missing one means that its stream ended.
#[derive(Debug)]
pub enum SessionSignal {
    State { ended: bool },
    Capabilities { ended: bool },
    Health { ended: bool },
    Telemetry { snapshot: Option<Result<TelemetrySnapshot, String>> },
    Workloads { ended: bool },
    Mode { ended: bool },
    Owner(OwnerChange),
}

/// What a signal asks for: what to read again, and an event to show.
#[derive(Debug)]
pub struct SessionStep {
    pub refresh: Vec<Refresh>,
    pub event: Option<UiEvent>,
}

/// Why a signal ends the session, if so.
pub open spec fn session_end(signal: SessionSignal) -> Option<Seq<char>> {
    match signal {
        SessionSignal::State { ended } => if ended {
            Some("state signal stream ended"@)
        } else {
            None
        },
        SessionSignal::Capabilities { ended } => if ended {
            Some("capability signal stream ended"@)
        } else {
            None
        },
        SessionSignal::Health { ended } => if ended {
            Some("health signal stream ended"@)
        } else {
            None
        },
        SessionSignal::Telemetry { snapshot } => if snapshot is None {
            Some("telemetry signal stream ended"@)
        } else {
            None
        },
        SessionSignal::Workloads { ended } => if ended {
            Some("running-workload signal stream ended"@)
        } else {
            None
        },
        SessionSignal::Mode { ended } => if ended {
            Some("property change stream ended"@)
        } else {
            None
        },
        SessionSignal::Owner(OwnerChange::Replaced) => Some("daemon D-Bus owner changed"@),
        SessionSignal::Owner(OwnerChange::Left) => Some("daemon left the system bus"@),
        SessionSignal::Owner(OwnerChange::Ended) => Some("daemon owner monitor ended"@),
    }
}

/// What a signal makes the session read again.
pub open spec fn signal_refreshes(signal: SessionSignal) -> Seq<Refresh> {
    match signal {
        SessionSignal::State { ended } => seq![Refresh::Status],
        SessionSignal::Health { ended } => seq![Refresh::Status],
        SessionSignal::Mode { ended } => seq![Refresh::Status],
        SessionSignal::Capabilities { ended } => seq![
            Refresh::Capabilities,
            Refresh::AppRules,
            Refresh::RunningWorkloads,
        ],
        SessionSignal::Workloads { ended } => seq![Refresh::RunningWorkloads],
        _ => Seq::empty(),
    }
}

/// Whether an event is the one of a telemetry signal.
pub open spec fn telemetry_event(signal: SessionSignal, event: Option<UiEvent>) -> bool {
    match signal {
        SessionSignal::Telemetry { snapshot: Some(Ok(s)) } => event == Some(UiEvent::Telemetry(s)),
        SessionSignal::Telemetry { snapshot: Some(Err(why)) } => match event {
            Some(UiEvent::RequestError { kind, message }) => kind == RequestErrorKind::Rejected
                && message@ == "invalid telemetry signal: "@ + why@,
            _ => false,
        },
        _ => event is None,
    }
}

fn one(step: Refresh) -> (out: Vec<Refresh>)
    ensures
        out@ == seq![step],
{
    let mut out: Vec<Refresh> = Vec::new();
    out.push(step);
    assert(out@ =~= seq![step]);
    out
}

/// What a signal means: the end of the session with its reason, or what to do.
pub fn on_signal(signal: SessionSignal) -> (r: Result<SessionStep, &'static str>)
    ensures
        match r {
            Err(reason) => session_end(signal) == Some(reason@),
            Ok(step) => {
                &&& session_end(signal) is None
                &&& step.refresh@ == signal_refreshes(signal)
                &&& telemetry_event(signal, step.event)
            },
        },
{
    match signal {
        SessionSignal::State { ended } => if ended {
            Err("state signal stream ended")
        } else {
            Ok(SessionStep { refresh: one(Refresh::Status), event: None })
        },
        SessionSignal::Health { ended } => if ended {
            Err("health signal stream ended")
        } else {
            Ok(SessionStep { refresh: one(Refresh::Status), event: None })
        },
        SessionSignal::Mode { ended } => if ended {
            Err("property change stream ended")
        } else {
            Ok(SessionStep { refresh: one(Refresh::Status), event: None })
        },
        SessionSignal::Workloads { ended } => if ended {
            Err("running-workload signal stream ended")
        } else {
            Ok(SessionStep { refresh: one(Refresh::RunningWorkloads), event: None })
        },
        SessionSignal::Capabilities { ended } => if ended {
            Err("capability signal stream ended")
        } else {
            let mut refresh: Vec<Refresh> = Vec::new();
            refresh.push(Refresh::Capabilities);
            refresh.push(Refresh::AppRules);
            refresh.push(Refresh::RunningWorkloads);
            assert(refresh@ =~= seq![
                Refresh::Capabilities,
                Refresh::AppRules,
                Refresh::RunningWorkloads,
            ]);
            Ok(SessionStep { refresh, event: None })
        },
        SessionSignal::Telemetry { snapshot } => {
            let refresh: Vec<Refresh> = Vec::new();
            assert(refresh@ =~= Seq::empty());
            match snapshot {
                None => Err("telemetry signal stream ended"),
                Some(Ok(s)) => Ok(SessionStep { refresh, event: Some(UiEvent::Telemetry(s)) }),
                Some(Err(why)) => Ok(
                    SessionStep {
                        refresh,
                        event: Some(
                            UiEvent::RequestError {
                                kind: RequestErrorKind::Rejected,
                                message: cat2("invalid telemetry signal: ", why.as_str()),
                            },
                        ),
                    },
                ),
            }
        },
        SessionSignal::Owner(change) => match change {
            OwnerChange::Replaced => Err("daemon D-Bus owner changed"),
            OwnerChange::Left => Err("daemon left the system bus"),
            OwnerChange::Ended => Err("daemon owner monitor ended"),
        },
    }
}

/// The pause before a reconnection: the first one where there was a connection,
/// else the next one.
pub open spec fn retry_pause(connected: bool, next: u64) -> u64 {
    if connected {
        INITIAL_RECONNECT_DELAY
    } else {
        next
    }
}

/// The pause after a pause.
pub open spec fn doubled_pause(pause: u64) -> int {
    if pause * 2 > MAX_RECONNECT_DELAY {
        MAX_RECONNECT_DELAY as int
    } else {
        pause * 2
    }
}

/// What follows the end of a session: nothing where it ended well, else the
/// event to show and the pause before the next. A session that was connected
/// starts the pauses over.
pub fn session_ended(backoff: &mut ReconnectBackoff, connected: bool, result: Result<(), String>) -> (r:
    Option<(UiEvent, u64)>)
    ensures
        match result {
            Ok(()) => r is None && *final(backoff) == *old(backoff),
            Err(reason) => {
                let delay: u64 = retry_pause(connected, old(backoff).next);
                &&& r == Some(
                    (
                        UiEvent::Connection(ConnectionState::Reconnecting { delay, reason }),
                        delay,
                    ),
                )
                &&& final(backoff).next == doubled_pause(delay)
            },
        },
{
    match result {
        Ok(()) => None,
        Err(reason) => {
            if connected {
                backoff.reset();
            }
            let delay: u64 = backoff.next_delay();
            Some((UiEvent::Connection(ConnectionState::Reconnecting { delay, reason }), delay))
        },
    }
}

/// What happens during the pause before a new connection.
#[derive(Clone, Copy, Debug, PartialEq, Eq, Structural)]
pub enum WaitEvent {
    TimerFired,
    /// A command came; whether it is the one that starts the daemon.
    Command { starts_service: bool },
    /// The daemon was asked to start; whether it did.
    ServiceDone { succeeded: bool },
    /// A refusal was shown; whether anybody is there to see it.
    RefusalShown { seen: bool },
    /// Nobody will send commands any more.
    Closed,
}

/// What to do during the pause.
#[derive(Clone, Copy, Debug, PartialEq, Eq, Structural)]
pub enum WaitStep {
    Connect,
    Stop,
    StartService,
    ShowRefusal,
    GoOnWaiting,
}

/// What to do during the pause. A command that needs the daemon is refused at
/// once, and a daemon that was started is connected to at once.
pub fn on_wait_event(event: WaitEvent) -> (r: WaitStep)
    ensures
        r == (match event {
            WaitEvent::TimerFired => WaitStep::Connect,
            WaitEvent::Command { starts_service } => if starts_service {
                WaitStep::StartService
            } else {
                WaitStep::ShowRefusal
            },
            WaitEvent::ServiceDone { succeeded } => if succeeded {
                WaitStep::Connect
            } else {
                WaitStep::GoOnWaiting
            },
            WaitEvent::RefusalShown { seen } => if seen {
                WaitStep::GoOnWaiting
            } else {
                WaitStep::Stop
            },
            WaitEvent::Closed => WaitStep::Stop,
        }),
{
    match event {
        WaitEvent::TimerFired => WaitStep::Connect,
        WaitEvent::Command { starts_service } => if starts_service {
            WaitStep::StartService
        } else {
            WaitStep::ShowRefusal
        },
        WaitEvent::ServiceDone { succeeded } => if succeeded {
            WaitStep::Connect
        } else {
            WaitStep::GoOnWaiting
        },
        WaitEvent::RefusalShown { seen } => if seen {
            WaitStep::GoOnWaiting
        } else {
            WaitStep::Stop
        },
        WaitEvent::Closed => WaitStep::Stop,
    }
}

/// The refusal of a command that came while the daemon was out of reach.
pub fn disconnected_refusal(language: Language) -> (r: UiEvent)
    ensures
        r is RequestError,
        r->RequestError_kind == RequestErrorKind::Rejected,
        r->RequestError_message@ == translation(
            language,
            "daemon disconnected before the command was sent"@,
        ),
{
    UiEvent::RequestError {
        kind: RequestErrorKind::Rejected,
        message: translate(
            language,
            "daemon disconnected before the command was sent",
        ).to_owned(),
    }
}

/// What to do while the daemon's unit starts.
#[derive(Clone, Copy, Debug, PartialEq, Eq, Structural)]
pub enum ActivationStep {
    /// It runs.
    Active,
    Failed(ActivationFailure),
    /// Ask again after a pause.
    Again,
}

/// Why the daemon's unit did not start.
#[derive(Clone, Copy, Debug, PartialEq, Eq, Structural)]
pub enum ActivationFailure {
    NoEnableReply,
    NoStartReply,
    UnitFailed,
    TimedOut,
}

impl ActivationFailure {
    /// The message shown for this failure.
    pub open spec fn text(self) -> Seq<char> {
        match self {
            ActivationFailure::NoEnableReply => "systemd returned no EnableUnitFiles reply"@,
            ActivationFailure::NoStartReply => "systemd returned no StartUnit reply"@,
            ActivationFailure::UnitFailed => "uperf-linux.service failed to start"@,
            ActivationFailure::TimedOut =>
                "timed out waiting for uperf-linux.service to become active"@,
        }
    }

    /// The message shown for this failure.
    pub fn message(self) -> (r: &'static str)
        ensures
            r@ == self.text(),
    {
        match self {
            ActivationFailure::NoEnableReply => "systemd returned no EnableUnitFiles reply",
            ActivationFailure::NoStartReply => "systemd returned no StartUnit reply",
            ActivationFailure::UnitFailed => "uperf-linux.service failed to start",
            ActivationFailure::TimedOut =>
                "timed out waiting for uperf-linux.service to become active",
        }
    }
}

/// Whether systemd took up both requests: the reply to each must be there.
pub fn check_replies(enabled: bool, started: bool) -> (r: Result<(), ActivationFailure>)
    ensures
        r == (if !enabled {
            Err::<(), ActivationFailure>(ActivationFailure::NoEnableReply)
        } else if !started {
            Err::<(), ActivationFailure>(ActivationFailure::NoStartReply)
        } else {
            Ok::<(), ActivationFailure>(())
        }),
{
    if !enabled {
        Err(ActivationFailure::NoEnableReply)
    } else if !started {
        Err(ActivationFailure::NoStartReply)
    } else {
        Ok(())
    }
}

/// What the state of the daemon's unit means, at the question with the given
/// number, counted from zero.
pub fn on_unit_state(state: &str, question: u32) -> (r: ActivationStep)
    ensures
        r == (if state@ == "active"@ {
            ActivationStep::Active
        } else if state@ == "failed"@ {
            ActivationStep::Failed(ActivationFailure::UnitFailed)
        } else if question + 1 < ACTIVATION_POLLS {
            ActivationStep::Again
        } else {
            ActivationStep::Failed(ActivationFailure::TimedOut)
        }),
{
    if same(state, "active") {
        ActivationStep::Active
    } else if same(state, "failed") {
        ActivationStep::Failed(ActivationFailure::UnitFailed)
    } else if question < ACTIVATION_POLLS - 1 {
        ActivationStep::Again
    } else {
        ActivationStep::Failed(ActivationFailure::TimedOut)
    }
}

/// Takes in an observed state of the reporter, and says whether it is news.
pub fn observe_reporter(state: &mut ReporterState, observed: ReporterState) -> (news: bool)
    ensures
        news == (*old(state) != observed),
        *final(state) == observed,
{
    let news = *state != observed;
    *state = observed;
    news
}

/// A refusal by the daemon never ends a session, and a lost connection is never
/// shown as a refusal.
pub proof fn refusals_are_no_disconnections(name: String, message: String)
    ensures
        disposition(ClientError::Remote { name, message }) == ErrorDisposition::ConnectionLost
            <==> connection_error(name@),
        has_suffix(name@, ".NotAuthorized"@) && !connection_error(name@) ==> disposition(
            ClientError::Remote { name, message },
        ) == ErrorDisposition::Request(RequestErrorKind::NotAuthorized),
{
}

} // verus!
