//! The state behind the client's window, and what each event changes in it.

use vstd::prelude::*;
use crate::api::{
    AppRule, Capabilities, CpuLoad, DaemonStatus, RunningWorkload, TelemetrySnapshot,
    RUNNING_WORKLOADS,
};
use crate::cpuset::CpuIds;
use crate::model::seq_view;
use crate::text::{cat3, texts};
use super::client::{connection_line, connection_text, ConnectionState, UiEvent};
use super::i18n::{translate, translation, Language};
use super::view_model::{FocusAction, ReporterState, ShownTarget, TargetView};

verus! {

/// How often the window is repainted, in milliseconds. The daemon samples faster
/// than anybody reads.
pub const GUI_REFRESH_INTERVAL: u64 = 1_000;

/// How often the reporter is asked for its state while a user may be mending
/// it, in milliseconds.
pub const REPORTER_RECHECK_INTERVAL: u64 = 20_000;

/// What an event makes the window do.
#[derive(Debug)]
pub enum UiAction {
    RebuildCapabilities,
    UpdateStatus,
    RebuildRules,
    RebuildWorkloads,
    /// Repaint after the refresh interval.
    ScheduleRefresh,
    RebuildCpuLoads(Vec<CpuLoad>),
    ShowConnection(String),
    /// Whether the controls of the daemon can be used.
    EnableControls(bool),
    /// Whether the button that starts the daemon is shown and can be used.
    ServiceButton { visible: bool, enabled: bool },
    /// Whether the button says that the daemon is being started.
    ServiceLabel { starting: bool },
    UpdateFocusCard,
    Toast(String),
}

/// The view of [`UiAction`].
pub enum ActionView {
    RebuildCapabilities,
    UpdateStatus,
    RebuildRules,
    RebuildWorkloads,
    ScheduleRefresh,
    RebuildCpuLoads(Seq<CpuLoad>),
    ShowConnection(Seq<char>),
    EnableControls(bool),
    ServiceButton { visible: bool, enabled: bool },
    ServiceLabel { starting: bool },
    UpdateFocusCard,
    Toast(Seq<char>),
}

impl View for UiAction {
    type V = ActionView;

    open spec fn view(&self) -> ActionView {
        match self {
            UiAction::RebuildCapabilities => ActionView::RebuildCapabilities,
            UiAction::UpdateStatus => ActionView::UpdateStatus,
            UiAction::RebuildRules => ActionView::RebuildRules,
            UiAction::RebuildWorkloads => ActionView::RebuildWorkloads,
            UiAction::ScheduleRefresh => ActionView::ScheduleRefresh,
            UiAction::RebuildCpuLoads(l) => ActionView::RebuildCpuLoads(l@),
            UiAction::ShowConnection(s) => ActionView::ShowConnection(s@),
            UiAction::EnableControls(b) => ActionView::EnableControls(*b),
            UiAction::ServiceButton { visible, enabled } => ActionView::ServiceButton {
                visible: *visible,
                enabled: *enabled,
            },
            UiAction::ServiceLabel { starting } => ActionView::ServiceLabel {
                starting: *starting,
            },
            UiAction::UpdateFocusCard => ActionView::UpdateFocusCard,
            UiAction::Toast(s) => ActionView::Toast(s@),
        }
    }
}

/// The state behind the window.
#[derive(Debug)]
pub struct UiState {
    pub connected: bool,
    pub service_action_running: bool,
    pub refresh_scheduled: bool,
    pub reporter: ReporterState,
    pub capabilities: Capabilities,
    pub status: DaemonStatus,
    pub rules: Vec<AppRule>,
    pub workloads: Vec<RunningWorkload>,
    pub pending_status: Option<DaemonStatus>,
    pub pending_telemetry: Option<TelemetrySnapshot>,
}

/// Actions as the model has them.
pub open spec fn actions(v: Seq<UiAction>) -> Seq<ActionView> {
    Seq::new(v.len(), |i: int| v[i]@)
}

/// The state after the connection changed: what waits to be shown is dropped
/// with the connection.
pub open spec fn with_connection(s: UiState, connected: bool) -> UiState {
    UiState {
        connected,
        pending_status: if connected {
            s.pending_status
        } else {
            None
        },
        pending_telemetry: if connected {
            s.pending_telemetry
        } else {
            None
        },
        ..s
    }
}

/// What a change of the connection makes the window do.
pub open spec fn connection_actions(s: UiState, language: Language, c: ConnectionState) -> Seq<
    ActionView,
> {
    let connected = c is Connected;
    seq![
        ActionView::EnableControls(connected),
        ActionView::ServiceButton {
            visible: !connected,
            enabled: !connected && !s.service_action_running,
        },
        ActionView::UpdateFocusCard,
        ActionView::ShowConnection(connection_line(language, c)),
    ]
}

/// The state with the latest values to be shown at the next repaint.
pub open spec fn queued(
    s: UiState,
    status: Option<DaemonStatus>,
    telemetry: Option<TelemetrySnapshot>,
) -> UiState {
    UiState {
        pending_status: if status is Some {
            status
        } else {
            s.pending_status
        },
        pending_telemetry: if telemetry is Some {
            telemetry
        } else {
            s.pending_telemetry
        },
        refresh_scheduled: true,
        ..s
    }
}

/// What queueing makes the window do: one repaint at a time is scheduled.
pub open spec fn queue_actions(s: UiState) -> Seq<ActionView> {
    if s.refresh_scheduled {
        Seq::empty()
    } else {
        seq![ActionView::ScheduleRefresh]
    }
}

/// The state after an event.
pub open spec fn after_event(s: UiState, event: UiEvent) -> UiState {
    match event {
        UiEvent::Snapshot { capabilities, status, rules, workloads } => UiState {
            capabilities,
            status,
            rules,
            workloads,
            ..s
        },
        UiEvent::Status(status) => queued(s, Some(status), None),
        UiEvent::Telemetry(telemetry) => queued(s, None, Some(telemetry)),
        UiEvent::Capabilities(capabilities) => UiState { capabilities, ..s },
        UiEvent::AppRules(rules) => UiState { rules, ..s },
        UiEvent::RunningWorkloads(workloads) => UiState { workloads, ..s },
        UiEvent::Notice(_) => s,
        UiEvent::RequestError { kind, message } => s,
        UiEvent::Connection(c) => with_connection(s, c is Connected),
        UiEvent::ServiceActivationStarted => UiState { service_action_running: true, ..s },
        UiEvent::ServiceActivationFinished(_) => UiState { service_action_running: false, ..s },
        UiEvent::Reporter(reporter) => UiState { reporter, ..s },
    }
}

/// What an event makes the window do.
pub open spec fn event_actions(s: UiState, language: Language, event: UiEvent) -> Seq<ActionView> {
    match event {
        UiEvent::Snapshot { capabilities, status, rules, workloads } => seq![
            ActionView::RebuildCapabilities,
            ActionView::UpdateStatus,
            ActionView::RebuildRules,
            ActionView::RebuildWorkloads,
        ],
        UiEvent::Status(_) => queue_actions(s),
        UiEvent::Telemetry(_) => queue_actions(s),
        UiEvent::Capabilities(_) => seq![
            ActionView::RebuildCapabilities,
            ActionView::UpdateStatus,
        ],
        UiEvent::AppRules(_) => seq![ActionView::RebuildRules],
        UiEvent::RunningWorkloads(_) => seq![ActionView::RebuildWorkloads],
        UiEvent::Notice(message) => seq![ActionView::Toast(message@)],
        UiEvent::RequestError { kind, message } => seq![
            ActionView::Toast(translation(language, kind.english()) + ": "@ + message@),
        ],
        UiEvent::Connection(c) => connection_actions(s, language, c),
        UiEvent::ServiceActivationStarted => seq![
            ActionView::ServiceButton { visible: !s.connected, enabled: false },
            ActionView::ServiceLabel { starting: true },
        ],
        UiEvent::ServiceActivationFinished(result) => seq![
            ActionView::ServiceLabel { starting: false },
            ActionView::ServiceButton { visible: !s.connected, enabled: !s.connected },
            ActionView::Toast(
                match result {
                    Ok(()) => translation(language, "Service started and enabled for boot"@),
                    Err(message) => translation(
                        language,
                        "Service activation was cancelled or denied"@,
                    ) + ": "@ + message@,
                },
            ),
        ],
        UiEvent::Reporter(reporter) => if s.reporter == reporter {
            Seq::empty()
        } else {
            seq![ActionView::UpdateStatus]
        },
    }
}

/// The state after a repaint: the latest status, with the latest temperatures
/// and frequencies on top.
pub open spec fn repainted(s: UiState) -> UiState {
    let base = match s.pending_status {
        Some(status) => status,
        None => s.status,
    };
    UiState {
        refresh_scheduled: false,
        pending_status: None,
        pending_telemetry: None,
        status: match s.pending_telemetry {
            Some(t) => DaemonStatus { thermal: t.thermal, frequencies: t.frequencies, ..base },
            None => base,
        },
        ..s
    }
}

/// What a repaint makes the window do: nothing where nothing waits.
pub open spec fn repaint_actions(s: UiState) -> Seq<ActionView> {
    match s.pending_telemetry {
        Some(t) => seq![ActionView::RebuildCpuLoads(t.cpu_loads@), ActionView::UpdateStatus],
        None => if s.pending_status is Some {
            seq![ActionView::UpdateStatus]
        } else {
            Seq::empty()
        },
    }
}

/// Appends an action.
fn act(out: &mut Vec<UiAction>, action: UiAction)
    ensures
        actions(final(out)@) == actions(old(out)@).push(action@),
{
    let ghost before = actions(out@);
    let ghost added = action@;
    out.push(action);
    assert(actions(out@) =~= before.push(added));
}

impl UiState {
    /// The state before the first connection, with what to show until then.
    pub fn new(capabilities: Capabilities, status: DaemonStatus) -> (s: Self)
        ensures
            s.capabilities == capabilities,
            s.status == status,
            !s.connected,
            !s.service_action_running,
            !s.refresh_scheduled,
            s.reporter == ReporterState::Unknown,
            s.pending_status is None,
            s.pending_telemetry is None,
            s.rules@.len() == 0,
            s.workloads@.len() == 0,
    {
        UiState {
            connected: false,
            service_action_running: false,
            refresh_scheduled: false,
            reporter: ReporterState::Unknown,
            capabilities,
            status,
            rules: Vec::new(),
            workloads: Vec::new(),
            pending_status: None,
            pending_telemetry: None,
        }
    }

    /// Queues values for the next repaint.
    fn queue_runtime_update(
        &mut self,
        status: Option<DaemonStatus>,
        telemetry: Option<TelemetrySnapshot>,
        out: &mut Vec<UiAction>,
    )
        requires
            actions(old(out)@) == Seq::<ActionView>::empty(),
        ensures
            *final(self) == queued(*old(self), status, telemetry),
            actions(final(out)@) == queue_actions(*old(self)),
    {
        if status.is_some() {
            self.pending_status = status;
        }
        if telemetry.is_some() {
            self.pending_telemetry = telemetry;
        }
        if !self.refresh_scheduled {
            act(out, UiAction::ScheduleRefresh);
            assert(actions(out@) =~= seq![ActionView::ScheduleRefresh]);
        }
        self.refresh_scheduled = true;
    }

    /// Takes in a change of the connection.
    fn update_connection(
        &mut self,
        language: Language,
        state: ConnectionState,
        out: &mut Vec<UiAction>,
    )
        requires
            actions(old(out)@) == Seq::<ActionView>::empty(),
        ensures
            *final(self) == with_connection(*old(self), state is Connected),
            actions(final(out)@) == connection_actions(*old(self), language, state),
    {
        let connected = match &state {
            ConnectionState::Connected => true,
            _ => false,
        };
        self.connected = connected;
        if !connected {
            self.pending_status = None;
            self.pending_telemetry = None;
        }
        act(out, UiAction::EnableControls(connected));
        act(
            out,
            UiAction::ServiceButton {
                visible: !connected,
                enabled: !connected && !self.service_action_running,
            },
        );
        act(out, UiAction::UpdateFocusCard);
        act(out, UiAction::ShowConnection(connection_text(language, &state)));
        assert(actions(out@) =~= connection_actions(*old(self), language, state));
    }

    /// Takes in an event.
    pub fn handle(&mut self, language: Language, event: UiEvent) -> (out: Vec<UiAction>)
        ensures
            *final(self) == after_event(*old(self), event),
            actions(out@) == event_actions(*old(self), language, event),
    {
        let mut out: Vec<UiAction> = Vec::new();
        assert(actions(out@) =~= Seq::<ActionView>::empty());
        let ghost expected = event_actions(*self, language, event);
        match event {
            UiEvent::Snapshot { capabilities, status, rules, workloads } => {
                self.capabilities = capabilities;
                self.status = status;
                self.rules = rules;
                self.workloads = workloads;
                act(&mut out, UiAction::RebuildCapabilities);
                act(&mut out, UiAction::UpdateStatus);
                act(&mut out, UiAction::RebuildRules);
                act(&mut out, UiAction::RebuildWorkloads);
            },
            UiEvent::Status(status) => {
                self.queue_runtime_update(Some(status), None, &mut out);
            },
            UiEvent::Telemetry(telemetry) => {
                self.queue_runtime_update(None, Some(telemetry), &mut out);
            },
            UiEvent::Capabilities(capabilities) => {
                self.capabilities = capabilities;
                act(&mut out, UiAction::RebuildCapabilities);
                act(&mut out, UiAction::UpdateStatus);
            },
            UiEvent::AppRules(rules) => {
                self.rules = rules;
                act(&mut out, UiAction::RebuildRules);
            },
            UiEvent::RunningWorkloads(workloads) => {
                self.workloads = workloads;
                act(&mut out, UiAction::RebuildWorkloads);
            },
            UiEvent::Notice(message) => {
                act(&mut out, UiAction::Toast(message));
            },
            UiEvent::RequestError { kind, message } => {
                let text = cat3(kind.label(language), ": ", message.as_str());
                act(&mut out, UiAction::Toast(text));
            },
            UiEvent::Connection(state) => {
                self.update_connection(language, state, &mut out);
            },
            UiEvent::ServiceActivationStarted => {
                self.service_action_running = true;
                act(
                    &mut out,
                    UiAction::ServiceButton { visible: !self.connected, enabled: false },
                );
                act(&mut out, UiAction::ServiceLabel { starting: true });
            },
            UiEvent::ServiceActivationFinished(result) => {
                self.service_action_running = false;
                act(&mut out, UiAction::ServiceLabel { starting: false });
                act(
                    &mut out,
                    UiAction::ServiceButton {
                        visible: !self.connected,
                        enabled: !self.connected,
                    },
                );
                let text = match result {
                    Ok(()) => translate(
                        language,
                        "Service started and enabled for boot",
                    ).to_owned(),
                    Err(message) => cat3(
                        translate(language, "Service activation was cancelled or denied"),
                        ": ",
                        message.as_str(),
                    ),
                };
                act(&mut out, UiAction::Toast(text));
            },
            UiEvent::Reporter(reporter) => {
                if self.reporter != reporter {
                    act(&mut out, UiAction::UpdateStatus);
                }
                self.reporter = reporter;
            },
        }
        assert(actions(out@) =~= expected);
        out
    }

    /// Repaints with the latest values.
    pub fn apply_runtime_update(&mut self) -> (out: Vec<UiAction>)
        ensures
            *final(self) == repainted(*old(self)),
            actions(out@) == repaint_actions(*old(self)),
    {
        let mut out: Vec<UiAction> = Vec::new();
        assert(actions(out@) =~= Seq::<ActionView>::empty());
        let ghost expected = repaint_actions(*self);
        self.refresh_scheduled = false;
        let mut status: Option<DaemonStatus> = None;
        std::mem::swap(&mut status, &mut self.pending_status);
        let mut telemetry: Option<TelemetrySnapshot> = None;
        std::mem::swap(&mut telemetry, &mut self.pending_telemetry);
        let anything = status.is_some() || telemetry.is_some();
        if let Some(status) = status {
            self.status = status;
        }
        if let Some(telemetry) = telemetry {
            act(&mut out, UiAction::RebuildCpuLoads(telemetry.cpu_loads));
            self.status.thermal = telemetry.thermal;
            self.status.frequencies = telemetry.frequencies;
        }
        if anything {
            act(&mut out, UiAction::UpdateStatus);
        }
        assert(actions(out@) =~= expected);
        out
    }

    /// Whether a command may be sent: only over a connection.
    pub fn may_send(&self) -> (r: bool)
        ensures
            r == self.connected,
    {
        self.connected
    }

    /// Takes up the request to start the daemon, unless one is under way.
    pub fn begin_service_start(&mut self) -> (begun: bool)
        ensures
            begun == !old(self).service_action_running,
            *final(self) == (UiState { service_action_running: true, ..*old(self) }),
    {
        let begun = !self.service_action_running;
        self.service_action_running = true;
        begun
    }
}

/// The CPUs whose rows are out of date: those without a load in a sample.
pub open spec fn is_stale(rows: Set<u32>, loads: Seq<CpuLoad>, cpu: u32) -> bool {
    rows.contains(cpu) && forall|i: int|
        0 <= i < loads.len() ==> (#[trigger] loads[i]).cpu_id != cpu
}

fn has_load(loads: &Vec<CpuLoad>, cpu: u32) -> (r: bool)
    ensures
        r == exists|i: int| 0 <= i < loads@.len() && (#[trigger] loads@[i]).cpu_id == cpu,
{
    let mut i: usize = 0;
    while i < loads.len()
        invariant
            i <= loads@.len(),
            forall|k: int| 0 <= k < i ==> (#[trigger] loads@[k]).cpu_id != cpu,
        decreases loads@.len() - i,
    {
        if loads[i].cpu_id == cpu {
            return true;
        }
        i = i + 1;
    }
    false
}

/// The CPUs whose rows are out of date. CPU numbers need not be dense.
pub fn stale_rows(rows: &CpuIds, loads: &Vec<CpuLoad>) -> (out: CpuIds)
    ensures
        forall|cpu: u32| #[trigger] out@.contains(cpu) <==> is_stale(rows@, loads@, cpu),
{
    let ids = rows.to_vec();
    let mut out = CpuIds::new();
    let mut i: usize = 0;
    while i < ids.len()
        invariant
            i <= ids@.len(),
            ids@.to_set() == rows@,
            forall|cpu: u32| #[trigger]
                out@.contains(cpu) <==> (ids@.take(i as int).contains(cpu) && is_stale(
                    rows@,
                    loads@,
                    cpu,
                )),
        decreases ids@.len() - i,
    {
        let cpu: u32 = ids[i];
        assert(ids@.to_set().contains(cpu));
        if !has_load(loads, cpu) {
            out.insert(cpu);
        }
        proof {
            let t = ids@.take(i as int);
            let u = ids@.take(i + 1);
            assert(u =~= t.push(cpu));
            assert forall|x: u32| u.contains(x) <==> (t.contains(x) || x == cpu) by {
                if t.contains(x) {
                    let m = choose|m: int| 0 <= m < t.len() && t[m] == x;
                    assert(u[m] == x);
                }
                assert(u[i as int] == cpu);
            }
        }
        i = i + 1;
    }
    proof {
        assert(ids@.take(ids@.len() as int) =~= ids@);
        assert forall|cpu: u32| #[trigger] out@.contains(cpu) <==> is_stale(rows@, loads@, cpu) by {
            assert(ids@.contains(cpu) <==> ids@.to_set().contains(cpu));
        }
    }
    out
}

/// However many values come in between, a repaint shows the latest status, with
/// the latest telemetry on top, in whichever order the two came.
pub proof fn repaint_shows_the_latest(
    s: UiState,
    status: DaemonStatus,
    telemetry: TelemetrySnapshot,
)
    ensures
        ({
            let a = after_event(after_event(s, UiEvent::Status(status)), UiEvent::Telemetry(telemetry));
            let b = after_event(after_event(s, UiEvent::Telemetry(telemetry)), UiEvent::Status(status));
            &&& repainted(a).status == (DaemonStatus {
                thermal: telemetry.thermal,
                frequencies: telemetry.frequencies,
                ..status
            })
            &&& repainted(b).status == repainted(a).status
        }),
{
}

/// While a repaint is scheduled no second one is, and after it one can be again.
pub proof fn repaints_are_coalesced(s: UiState, language: Language, status: DaemonStatus)
    ensures
        s.refresh_scheduled ==> event_actions(s, language, UiEvent::Status(status)).len() == 0,
        after_event(s, UiEvent::Status(status)).refresh_scheduled,
        !repainted(s).refresh_scheduled,
{
}

/// What waits to be shown does not outlive the connection that it came by.
pub proof fn disconnection_drops_what_waits(s: UiState, c: ConnectionState)
    requires
        !(c is Connected),
    ensures
        !after_event(s, UiEvent::Connection(c)).connected,
        repaint_actions(after_event(s, UiEvent::Connection(c))).len() == 0,
        repainted(after_event(s, UiEvent::Connection(c))).status == s.status,
{
}

/// Whether an override of a target is active.
pub open spec fn overridden(t: ShownTarget) -> bool {
    t.status is Some && t.status->0.override_active
}

/// Whether an override of any target is active, so that all can be released.
pub fn any_override(targets: &Vec<TargetView>) -> (r: bool)
    ensures
        r == exists|i: int| 0 <= i < targets@.len() && overridden(#[trigger] targets@[i]@),
{
    let mut i: usize = 0;
    while i < targets.len()
        invariant
            i <= targets@.len(),
            forall|k: int| 0 <= k < i ==> !overridden(#[trigger] targets@[k]@),
        decreases targets@.len() - i,
    {
        let active = match &targets[i].status {
            Some(s) => s.override_active,
            None => false,
        };
        if active {
            assert(overridden(targets@[i as int]@));
            return true;
        }
        i = i + 1;
    }
    false
}

/// The button of the focus card.
#[derive(Clone, Copy, Debug, PartialEq, Eq, Structural)]
pub struct FocusButton {
    pub visible: bool,
    pub suggested: bool,
    pub enabled: bool,
}

/// The button of the focus card for what it offers. Turning the reporter on
/// needs no daemon; clearing an explicit workload does.
pub fn focus_button(action: FocusAction, connected: bool) -> (b: FocusButton)
    ensures
        b.visible == (action != FocusAction::Nothing),
        b.suggested == (action == FocusAction::EnableReporter),
        b.enabled == (action == FocusAction::EnableReporter || (action
            == FocusAction::ClearExplicit && connected)),
{
    match action {
        FocusAction::Nothing => FocusButton { visible: false, suggested: false, enabled: false },
        FocusAction::EnableReporter => FocusButton {
            visible: true,
            suggested: true,
            enabled: true,
        },
        FocusAction::ClearExplicit => FocusButton {
            visible: true,
            suggested: false,
            enabled: connected,
        },
    }
}

/// Whether the window of a target can be chosen: it allows that and offers
/// frequencies.
pub fn is_overridable(target: &TargetView) -> (r: bool)
    ensures
        r == (target@.capability.can_override && target@.choices_hz.len() > 0),
{
    target.capability.can_override && target.choices_hz.len() > 0
}

/// The identifiers of the first `n` targets whose windows can be chosen.
pub open spec fn overridable_ids(all: Seq<ShownTarget>, n: nat) -> Seq<Seq<char>>
    decreases n,
{
    if n == 0 {
        Seq::empty()
    } else {
        let before = overridable_ids(all, (n - 1) as nat);
        if all[n - 1].capability.can_override && all[n - 1].choices_hz.len() > 0 {
            before.push(all[n - 1].capability.id)
        } else {
            before
        }
    }
}

/// The targets that are released together.
pub fn release_ids(targets: &Vec<TargetView>) -> (out: Vec<String>)
    ensures
        texts(out@) == overridable_ids(seq_view(targets@), targets@.len()),
{
    let ghost v = seq_view(targets@);
    let mut out: Vec<String> = Vec::new();
    let mut i: usize = 0;
    assert(texts(out@) =~= Seq::empty());
    while i < targets.len()
        invariant
            i <= targets@.len(),
            v == seq_view(targets@),
            texts(out@) == overridable_ids(v, i as nat),
        decreases targets@.len() - i,
    {
        assert(v[i as int] == targets@[i as int]@);
        if is_overridable(&targets[i]) {
            let ghost before = texts(out@);
            out.push(targets[i].capability.id.as_str().to_owned());
            assert(texts(out@) =~= before.push(v[i as int].capability.id));
        }
        i = i + 1;
    }
    out
}

/// Whether the list of running workloads is shown: the daemon offers it, or it
/// holds something.
pub fn shows_workloads(capabilities: &Capabilities, workloads: &Vec<RunningWorkload>) -> (r: bool)
    ensures
        r == (capabilities@.features.contains(RUNNING_WORKLOADS@) || workloads@.len() > 0),
{
    capabilities.supports(RUNNING_WORKLOADS) || workloads.len() > 0
}

} // verus!
