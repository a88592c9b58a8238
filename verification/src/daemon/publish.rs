//! What the daemon shows to its clients, and in which order it says that
//! something changed.

use vstd::prelude::*;
use crate::api::{
    ActiveWorkload, ActiveWorkloadView, ApiVersion, AppRule, Capabilities, CapabilitiesView,
    CapabilityView, CpuLoad, DaemonStatus, FrequencyStatus, FrequencyStatusView, HealthStatus,
    ModeInfo, StatusView, TargetCapability, TelemetrySnapshot, TelemetryView, ThermalStatus,
    ThermalStatusView, WorkloadIdentity, FREQUENCY_TRANSACTIONS, SYSTEMD_CGROUP, TASK_SCHEDULER,
};
use crate::model::{
    seq_view, FrequencyLimits, ModeSelection, ProcessIdentity, ProfileId, Scene,
    ThermalState,
};
use crate::platform::{LoadRatio, SystemdUnitProperties, UnitView};
use crate::table::{copy_list, same_list, Table};
use crate::text::{copy_texts, same, texts};
use super::health::{health_state, health_view};
use super::names::{mode_name, mode_text, profile_name, profile_text, scene_name, scene_text};
use super::observers::frequencies_stale;
use super::rules::{client_rule, core_rule_to_api};
use super::state::{next, Counters, CpuLoadSample, Gates, Model, RuntimeActor, TaskPlan, TaskView};
use super::workload::active_identity;

verus! {

/// The effective profile: that of the plan, else the default one.
pub open spec fn effective_profile(m: Model) -> ProfileId {
    match m.plans.desired {
        Some(plan) => plan.effective_profile,
        None => m.configuration.policy.default_profile,
    }
}

/// The dominant scene: that of the plan, else none.
pub open spec fn dominant_scene(m: Model) -> Scene {
    match m.plans.desired {
        Some(plan) => plan.dominant_scene,
        None => Scene::Idle,
    }
}

/// The wanted frequencies.
pub open spec fn desired_frequencies(m: Model) -> Map<Seq<char>, FrequencyLimits> {
    match m.plans.desired {
        Some(plan) => plan.frequencies,
        None => Map::empty(),
    }
}

/// The wanted tasks.
pub open spec fn desired_tasks(m: Model) -> Seq<TaskView> {
    match m.plans.desired {
        Some(plan) => plan.tasks,
        None => Seq::empty(),
    }
}

/// The part of the state that clients see as control state.
pub struct SignatureView {
    pub control_generation: u64,
    pub config_generation: u64,
    pub mode: ModeSelection,
    pub active_workload: Option<ProcessIdentity>,
    pub effective_profile: ProfileId,
    pub dominant_scene: Scene,
    pub thermal_state: ThermalState,
    pub desired_frequencies: Map<Seq<char>, FrequencyLimits>,
    pub applied_frequencies: Map<Seq<char>, FrequencyLimits>,
    pub desired_tasks: Seq<TaskView>,
    pub applied_tasks: Seq<TaskView>,
    pub applied_units: Map<Seq<char>, UnitView>,
    pub suspended: bool,
}

/// The part of the state that clients see as control state.
pub open spec fn signature(m: Model) -> SignatureView {
    SignatureView {
        control_generation: m.counters.generation,
        config_generation: m.counters.config_generation,
        mode: m.selection.mode,
        active_workload: active_identity(m),
        effective_profile: effective_profile(m),
        dominant_scene: dominant_scene(m),
        thermal_state: m.caps.thermal_state,
        desired_frequencies: desired_frequencies(m),
        applied_frequencies: m.plans.applied.frequencies,
        desired_tasks: desired_tasks(m),
        applied_tasks: m.plans.applied.tasks,
        applied_units: m.plans.units,
        suspended: m.gates.suspended,
    }
}

/// A remembered signature.
#[derive(Debug)]
pub struct StateSignature {
    pub control_generation: u64,
    pub config_generation: u64,
    pub mode: ModeSelection,
    pub active_workload: Option<ProcessIdentity>,
    pub effective_profile: ProfileId,
    pub dominant_scene: Scene,
    pub thermal_state: ThermalState,
    pub desired_frequencies: Table<FrequencyLimits>,
    pub applied_frequencies: Table<FrequencyLimits>,
    pub desired_tasks: Vec<TaskPlan>,
    pub applied_tasks: Vec<TaskPlan>,
    pub applied_units: Table<SystemdUnitProperties>,
    pub suspended: bool,
}

impl View for StateSignature {
    type V = SignatureView;

    open spec fn view(&self) -> SignatureView {
        SignatureView {
            control_generation: self.control_generation,
            config_generation: self.config_generation,
            mode: self.mode,
            active_workload: self.active_workload,
            effective_profile: self.effective_profile,
            dominant_scene: self.dominant_scene,
            thermal_state: self.thermal_state,
            desired_frequencies: self.desired_frequencies@,
            applied_frequencies: self.applied_frequencies@,
            desired_tasks: seq_view(self.desired_tasks@),
            applied_tasks: seq_view(self.applied_tasks@),
            applied_units: self.applied_units@,
            suspended: self.suspended,
        }
    }
}

impl StateSignature {
    /// Whether two signatures agree in every respect.
    pub fn same_as(&self, other: &StateSignature) -> (r: bool)
        ensures
            r == (self@ == other@),
    {
        self.control_generation == other.control_generation && self.config_generation
            == other.config_generation && self.mode == other.mode && self.active_workload
            == other.active_workload && self.effective_profile == other.effective_profile
            && self.dominant_scene == other.dominant_scene && self.thermal_state
            == other.thermal_state && self.suspended == other.suspended
            && self.desired_frequencies.same_as(&other.desired_frequencies)
            && self.applied_frequencies.same_as(&other.applied_frequencies) && same_list(
            &self.desired_tasks,
            &other.desired_tasks,
        ) && same_list(&self.applied_tasks, &other.applied_tasks) && self.applied_units.same_as(
            &other.applied_units,
        )
    }
}

/// A load share in hundredths of a percent, rounded to the nearest one.
pub open spec fn basis_points(load: LoadRatio) -> int
    recommends
        load.total > 0,
{
    let scaled = (2 * 10_000 * load.busy + load.total) / (2 * load.total);
    if scaled > 10_000 {
        10_000
    } else {
        scaled
    }
}

/// A load share in hundredths of a percent.
pub fn utilization_to_basis_points(load: LoadRatio) -> (r: u16)
    requires
        load.total > 0,
    ensures
        r == basis_points(load),
{
    let scaled: u128 = (20_000 * load.busy as u128 + load.total as u128) / (2 * load.total as u128);
    if scaled > 10_000 {
        10_000
    } else {
        scaled as u16
    }
}

/// A full load is ten thousand hundredths of a percent, none is zero.
pub proof fn basis_points_span_the_range(total: u64)
    requires
        total > 0,
    ensures
        basis_points(LoadRatio { busy: total, total }) == 10_000,
        basis_points(LoadRatio { busy: 0, total }) == 0,
{
    let t = total as int;
    assert((20_000 * t + t) / (2 * t) == 10_000) by (nonlinear_arith)
        requires
            t > 0,
    ;
    assert(t / (2 * t) == 0) by (nonlinear_arith)
        requires
            t > 0,
    ;
}

/// A window for display, zero where there is none.
pub open spec fn shown(limits: Option<FrequencyLimits>) -> FrequencyLimits {
    match limits {
        Some(l) => l,
        None => FrequencyLimits { min: 0, max: 0 },
    }
}

/// The window under a key.
pub open spec fn window_of(map: Map<Seq<char>, FrequencyLimits>, id: Seq<char>) -> Option<
    FrequencyLimits,
> {
    if map.dom().contains(id) {
        Some(map[id])
    } else {
        None
    }
}

/// The observed window of a target.
pub open spec fn observed_window(m: Model, id: Seq<char>) -> Option<FrequencyLimits> {
    if m.observed.frequencies.dom().contains(id) {
        Some(m.observed.frequencies[id].limits)
    } else {
        None
    }
}

/// The state of one target for clients.
pub open spec fn target_status(m: Model, id: Seq<char>, now: u64) -> FrequencyStatusView {
    let observed = observed_window(m, id);
    let desired = window_of(desired_frequencies(m), id);
    let applied = window_of(m.plans.applied.frequencies, id);
    FrequencyStatusView {
        target_id: id,
        observed_available: observed is Some,
        observed_min_hz: shown(observed).min,
        observed_max_hz: shown(observed).max,
        desired_available: desired is Some,
        desired_min_hz: shown(desired).min,
        desired_max_hz: shown(desired).max,
        applied_verified: applied is Some,
        applied_min_hz: shown(applied).min,
        applied_max_hz: shown(applied).max,
        override_active: m.selection.overrides.dom().contains(id),
        stale: frequencies_stale(m, now) || observed is None,
    }
}

/// The states of all targets, in the order of their identifiers.
pub open spec fn target_statuses(m: Model, ids: Seq<Seq<char>>, now: u64) -> Seq<
    FrequencyStatusView,
> {
    Seq::new(ids.len(), |i: int| target_status(m, ids[i], now))
}

/// The name of a thermal verdict for clients.
pub open spec fn thermal_name(state: ThermalState) -> Seq<char> {
    match state {
        ThermalState::Normal => "normal"@,
        ThermalState::Warning => "warning"@,
        ThermalState::Throttled => "throttled"@,
        ThermalState::Critical => "critical"@,
        ThermalState::Degraded => "stale"@,
    }
}

/// A temperature in the range that clients get.
pub open spec fn shown_temperature(temperature: Option<i64>) -> int {
    match temperature {
        None => 0,
        Some(t) => if t < i32::MIN {
            i32::MIN as int
        } else if t > i32::MAX {
            i32::MAX as int
        } else {
            t as int
        },
    }
}

/// The thermal verdict for clients.
pub open spec fn thermal_view(m: Model) -> ThermalStatusView {
    ThermalStatusView {
        state: thermal_name(m.caps.thermal_state),
        max_temperature_millicelsius: shown_temperature(m.observed.maximum_temperature) as i32,
        cap_active: m.caps.thermal != Map::<Seq<char>, u64>::empty(),
        sensors_stale: m.caps.thermal_state == ThermalState::Degraded,
    }
}

/// No workload.
pub open spec fn no_workload() -> ActiveWorkloadView {
    ActiveWorkloadView {
        present: false,
        identity: WorkloadIdentity { pid: 0, start_time_ticks: 0, uid: 0 },
        name: Seq::empty(),
        requested_mode: Seq::empty(),
        effective_mode: Seq::empty(),
        source: Seq::empty(),
    }
}

/// An identity for clients.
pub open spec fn client_identity(identity: ProcessIdentity) -> WorkloadIdentity {
    WorkloadIdentity {
        pid: identity.pid,
        start_time_ticks: identity.start_time_ticks,
        uid: identity.uid,
    }
}

/// An identity for clients.
pub fn core_identity_to_api(identity: ProcessIdentity) -> (r: WorkloadIdentity)
    ensures
        r == client_identity(identity),
{
    WorkloadIdentity {
        pid: identity.pid,
        start_time_ticks: identity.start_time_ticks,
        uid: identity.uid,
    }
}

/// The active workload for clients.
pub open spec fn workload_view(m: Model) -> ActiveWorkloadView {
    match m.selection.workload {
        None => no_workload(),
        Some(w) => ActiveWorkloadView {
            present: true,
            identity: client_identity(w.identity),
            name: w.comm,
            requested_mode: match m.selection.profile {
                Some(p) => profile_text(p),
                None => Seq::empty(),
            },
            effective_mode: profile_text(effective_profile(m)),
            source: "explicit"@,
        },
    }
}

/// Whether frequencies can be mutated.
pub open spec fn writable(m: Model) -> bool {
    m.gates.actuator is Some && !m.gates.actuator_read_only
}

/// The features that depend on the running state, in order.
pub open spec fn runtime_features(m: Model) -> Seq<Seq<char>> {
    let policy = m.configuration.policy;
    if !writable(m) {
        Seq::empty()
    } else {
        let a = m.gates.actuator->0;
        let base = seq![FREQUENCY_TRANSACTIONS@];
        let tasks = if policy.scheduler_enabled && a.process_backend {
            base.push(TASK_SCHEDULER@)
        } else {
            base
        };
        if policy.scheduler_enabled && policy.has_cgroup_classes && a.systemd_backend {
            tasks.push(SYSTEMD_CGROUP@)
        } else {
            tasks
        }
    }
}

/// What the daemon offers at the moment.
pub open spec fn capabilities_view(m: Model) -> CapabilitiesView {
    let c = m.configuration.capabilities;
    CapabilitiesView {
        modes: c.modes,
        targets: Seq::new(
            c.targets.len(),
            |i: int| CapabilityView { can_override: writable(m), ..c.targets[i] },
        ),
        features: c.features + runtime_features(m),
    }
}

/// The name of the overall state.
pub open spec fn daemon_state(m: Model) -> Seq<char> {
    if m.gates.stop_requested {
        "stopping"@
    } else if health_state(m) == "healthy"@ {
        "running"@
    } else {
        "degraded"@
    }
}

/// The loads for clients.
pub open spec fn load_views(loads: Seq<CpuLoadSample>) -> Seq<CpuLoad> {
    Seq::new(
        loads.len(),
        |i: int|
            CpuLoad {
                cpu_id: loads[i].cpu,
                utilization_basis_points: if loads[i].load.total == 0 {
                    0
                } else {
                    basis_points(loads[i].load) as u16
                },
            },
    )
}

/// The status for clients. `codes` and `ids` are the codes of the findings and
/// the identifiers of the targets, in order.
pub open spec fn status_view(
    m: Model,
    version: ApiVersion,
    daemon_version: Seq<char>,
    codes: Seq<Seq<char>>,
    ids: Seq<Seq<char>>,
    now: u64,
) -> StatusView {
    StatusView {
        api_version: version,
        daemon_version,
        state: daemon_state(m),
        health: health_view(m, codes),
        mode: mode_text(m.selection.mode),
        effective_profile: profile_text(effective_profile(m)),
        dominant_scene: scene_text(dominant_scene(m)),
        active_workload: workload_view(m),
        thermal: thermal_view(m),
        frequencies: target_statuses(m, ids, now),
        config_generation: m.counters.config_generation,
        reconcile_generation: m.plans.applied.generation,
    }
}

/// The telemetry for clients.
pub open spec fn telemetry_view(m: Model, ids: Seq<Seq<char>>, now: u64) -> TelemetryView {
    TelemetryView {
        sequence: m.counters.telemetry_sequence,
        monotonic_ms: m.observed.timestamp,
        cpu_loads: load_views(m.observed.cpu_loads),
        thermal: thermal_view(m),
        frequencies: target_statuses(m, ids, now),
    }
}

/// One coherent picture of the daemon for its clients.
#[derive(Debug)]
pub struct PublishedState {
    /// Monotonic revision of the control state.
    pub state_revision: u64,
    pub status: DaemonStatus,
    pub capabilities: Capabilities,
    pub telemetry: TelemetrySnapshot,
    pub app_rules: Vec<AppRule>,
}

/// What is said to clients, in order.
#[derive(Clone, Copy, Debug, PartialEq, Eq, Structural)]
pub enum RuntimeEvent {
    /// The picture is replaced.
    Published,
    /// The control state has a new revision.
    StateChanged(u64),
    HealthChanged,
    CapabilitiesChanged,
}

/// What the clients know.
#[derive(Debug)]
pub struct Marks {
    pub signature: StateSignature,
    pub health: HealthStatus,
    pub actuator_read_only: bool,
    pub telemetry_sequence: u64,
}

/// What changed since the clients were told.
#[derive(Clone, Copy, Debug, PartialEq, Eq, Structural)]
pub struct Changes {
    pub state: bool,
    pub health: bool,
    pub capabilities: bool,
    pub telemetry: bool,
}

/// What is said to clients: first the picture is replaced, then each change is
/// announced, so that nobody who hears of a change still sees the earlier
/// picture.
pub open spec fn announcements(c: Changes, revision: u64) -> Seq<RuntimeEvent> {
    let none = Seq::<RuntimeEvent>::empty();
    let first = if c.state || c.health || c.capabilities || c.telemetry {
        none.push(RuntimeEvent::Published)
    } else {
        none
    };
    let second = if c.state {
        first.push(RuntimeEvent::StateChanged(revision))
    } else {
        first
    };
    let third = if c.health {
        second.push(RuntimeEvent::HealthChanged)
    } else {
        second
    };
    if c.capabilities {
        third.push(RuntimeEvent::CapabilitiesChanged)
    } else {
        third
    }
}

/// What changed since the clients were told.
pub open spec fn changes(m: Model, health: crate::api::HealthView, marks: Marks) -> Changes {
    Changes {
        state: signature(m) != marks.signature@,
        health: health != marks.health@,
        capabilities: m.gates.capabilities_changed_pending || m.gates.actuator_read_only
            != marks.actuator_read_only,
        telemetry: m.counters.telemetry_sequence != marks.telemetry_sequence,
    }
}

/// The state after its changes were announced.
pub open spec fn announced(m: Model, c: Changes) -> Model {
    Model {
        gates: Gates { capabilities_changed_pending: false, ..m.gates },
        counters: Counters {
            state_revision: if c.state {
                next(m.counters.state_revision)
            } else {
                m.counters.state_revision
            },
            ..m.counters
        },
        ..m
    }
}

/// What is said to clients.
fn announce(c: Changes, revision: u64) -> (out: Vec<RuntimeEvent>)
    ensures
        out@ == announcements(c, revision),
{
    let mut out: Vec<RuntimeEvent> = Vec::new();
    if c.state || c.health || c.capabilities || c.telemetry {
        out.push(RuntimeEvent::Published);
    }
    if c.state {
        out.push(RuntimeEvent::StateChanged(revision));
    }
    if c.health {
        out.push(RuntimeEvent::HealthChanged);
    }
    if c.capabilities {
        out.push(RuntimeEvent::CapabilitiesChanged);
    }
    out
}

/// Whether two pictures of the health agree.
pub fn same_health(a: &HealthStatus, b: &HealthStatus) -> (r: bool)
    ensures
        r == (a@ == b@),
{
    a.state == b.state && a.read_only == b.read_only && a.recovery_pending == b.recovery_pending
        && a.summary == b.summary && same_list(&a.issues, &b.issues)
}

/// The identifiers of a table, in order, each with its window.
fn window_in(table: &Table<FrequencyLimits>, id: &str) -> (r: Option<FrequencyLimits>)
    ensures
        r == window_of(table@, id@),
{
    table.copied(id)
}

/// A window for display.
fn show(limits: Option<FrequencyLimits>) -> (r: FrequencyLimits)
    ensures
        r == shown(limits),
{
    match limits {
        Some(l) => l,
        None => FrequencyLimits { min: 0, max: 0 },
    }
}

impl RuntimeActor {
    /// The effective profile.
    fn effective_profile(&self) -> (r: ProfileId)
        ensures
            r == effective_profile(self@),
    {
        match &self.plans.desired {
            Some(plan) => plan.effective_profile,
            None => self.configuration.policy.default_profile,
        }
    }

    /// The dominant scene.
    fn dominant_scene(&self) -> (r: Scene)
        ensures
            r == dominant_scene(self@),
    {
        match &self.plans.desired {
            Some(plan) => plan.dominant_scene,
            None => Scene::Idle,
        }
    }

    /// The part of the state that clients see as control state.
    pub fn state_signature(&self) -> (s: StateSignature)
        ensures
            s@ == signature(self@),
    {
        let (frequencies, tasks): (Table<FrequencyLimits>, Vec<TaskPlan>) = match &self.plans.desired {
            Some(plan) => (plan.frequencies.duplicate(), copy_list(&plan.tasks)),
            None => {
                let none: Vec<TaskPlan> = Vec::new();
                assert(seq_view(none@) =~= Seq::<TaskView>::empty());
                (Table::new(), none)
            },
        };
        StateSignature {
            control_generation: self.counters.generation,
            config_generation: self.counters.config_generation,
            mode: self.selection.mode,
            active_workload: match &self.selection.workload {
                Some(w) => Some(w.identity),
                None => None,
            },
            effective_profile: self.effective_profile(),
            dominant_scene: self.dominant_scene(),
            thermal_state: self.caps.thermal_state,
            desired_frequencies: frequencies,
            applied_frequencies: self.plans.applied.frequencies.duplicate(),
            desired_tasks: tasks,
            applied_tasks: copy_list(&self.plans.applied.tasks),
            applied_units: self.plans.units.duplicate(),
            suspended: self.gates.suspended,
        }
    }

    /// The state of one target for clients.
    fn frequency_status(&self, id: &str, stale: bool, now: Ghost<u64>) -> (s: FrequencyStatus)
        requires
            stale == frequencies_stale(self@, now@),
        ensures
            s@ == target_status(self@, id@, now@),
    {
        let observed: Option<FrequencyLimits> = match self.observed.frequencies.copied(id) {
            Some(o) => Some(o.limits),
            None => None,
        };
        let desired: Option<FrequencyLimits> = match &self.plans.desired {
            Some(plan) => window_in(&plan.frequencies, id),
            None => None,
        };
        let applied = window_in(&self.plans.applied.frequencies, id);
        FrequencyStatus {
            target_id: id.to_owned(),
            observed_available: observed.is_some(),
            observed_min_hz: show(observed).min,
            observed_max_hz: show(observed).max,
            desired_available: desired.is_some(),
            desired_min_hz: show(desired).min,
            desired_max_hz: show(desired).max,
            applied_verified: applied.is_some(),
            applied_min_hz: show(applied).min,
            applied_max_hz: show(applied).max,
            override_active: self.selection.overrides.contains(id),
            stale: stale || observed.is_none(),
        }
    }

    /// The states of all targets for clients.
    pub fn frequency_statuses(&self, now: u64) -> (out: Vec<FrequencyStatus>)
        ensures
            seq_view(out@) == target_statuses(self@, self.configuration.targets.keys(), now),
    {
        let stale = self.frequency_observations_stale(now);
        let n: usize = self.configuration.targets.len();
        let mut out: Vec<FrequencyStatus> = Vec::new();
        let mut i: usize = 0;
        while i < n
            invariant
                i <= n,
                n == self.configuration.targets.keys().len(),
                stale == frequencies_stale(self@, now),
                out@.len() == i,
                forall|j: int|
                    0 <= j < i ==> (#[trigger] out@[j])@ == target_status(
                        self@,
                        self.configuration.targets.keys()[j],
                        now,
                    ),
            decreases n - i,
        {
            out.push(self.frequency_status(self.configuration.targets.key_at(i), stale, Ghost(now)));
            i = i + 1;
        }
        assert(seq_view(out@) =~= target_statuses(self@, self.configuration.targets.keys(), now));
        out
    }

    /// The thermal verdict for clients.
    pub fn thermal_status(&self) -> (s: ThermalStatus)
        ensures
            s@ == thermal_view(self@),
    {
        let temperature: i32 = match self.observed.maximum_temperature {
            None => 0,
            Some(t) => if t < i32::MIN as i64 {
                i32::MIN
            } else if t > i32::MAX as i64 {
                i32::MAX
            } else {
                t as i32
            },
        };
        let name = match self.caps.thermal_state {
            ThermalState::Normal => "normal",
            ThermalState::Warning => "warning",
            ThermalState::Throttled => "throttled",
            ThermalState::Critical => "critical",
            ThermalState::Degraded => "stale",
        };
        ThermalStatus {
            state: name.to_owned(),
            max_temperature_millicelsius: temperature,
            cap_active: !self.caps.thermal.is_empty(),
            sensors_stale: self.caps.thermal_state == ThermalState::Degraded,
        }
    }

    /// The active workload for clients.
    pub fn api_active_workload(&self) -> (w: ActiveWorkload)
        ensures
            w@ == workload_view(self@),
    {
        match &self.selection.workload {
            None => ActiveWorkload {
                present: false,
                identity: WorkloadIdentity { pid: 0, start_time_ticks: 0, uid: 0 },
                name: String::new(),
                requested_mode: String::new(),
                effective_mode: String::new(),
                source: String::new(),
            },
            Some(w) => ActiveWorkload {
                present: true,
                identity: core_identity_to_api(w.identity),
                name: w.comm.clone(),
                requested_mode: match self.selection.profile {
                    Some(p) => profile_name(p).to_owned(),
                    None => String::new(),
                },
                effective_mode: profile_name(self.effective_profile()).to_owned(),
                source: "explicit".to_owned(),
            },
        }
    }

    /// The targets as they can be used at the moment.
    fn runtime_targets(&self, can_override: bool) -> (out: Vec<TargetCapability>)
        requires
            can_override == writable(self@),
        ensures
            seq_view(out@) == capabilities_view(self@).targets,
    {
        let mut out: Vec<TargetCapability> = Vec::new();
        let mut i: usize = 0;
        while i < self.configuration.capabilities.targets.len()
            invariant
                i <= self.configuration.capabilities.targets@.len(),
                out@.len() == i,
                can_override == writable(self@),
                forall|j: int|
                    0 <= j < i ==> (#[trigger] out@[j])@ == (CapabilityView {
                        can_override: writable(self@),
                        ..self.configuration.capabilities.targets@[j]@
                    }),
            decreases self.configuration.capabilities.targets@.len() - i,
        {
            let mut target = self.configuration.capabilities.targets[i].duplicate();
            target.can_override = can_override;
            out.push(target);
            i = i + 1;
        }
        assert(seq_view(out@) =~= capabilities_view(self@).targets);
        out
    }

    /// What the daemon offers at the moment.
    pub fn runtime_capabilities(&self) -> (c: Capabilities)
        ensures
            c@ == capabilities_view(self@),
    {
        let can_override = self.gates.actuator.is_some() && !self.gates.actuator_read_only;
        let targets = self.runtime_targets(can_override);
        let mut modes: Vec<ModeInfo> = Vec::new();
        let mut i: usize = 0;
        while i < self.configuration.capabilities.modes.len()
            invariant
                i <= self.configuration.capabilities.modes@.len(),
                modes@.len() == i,
                forall|j: int|
                    0 <= j < i ==> (#[trigger] modes@[j])@
                        == self.configuration.capabilities.modes@[j]@,
            decreases self.configuration.capabilities.modes@.len() - i,
        {
            modes.push(self.configuration.capabilities.modes[i].duplicate());
            i = i + 1;
        }
        assert(seq_view(modes@) =~= self@.configuration.capabilities.modes);
        let mut features = copy_texts(&self.configuration.capabilities.features);
        let ghost base = texts(features@);
        let policy = self.configuration.policy;
        assert(base + Seq::<Seq<char>>::empty() =~= base);
        if can_override {
            let (process, systemd) = match self.gates.actuator {
                Some(a) => (a.process_backend, a.systemd_backend),
                None => (false, false),
            };
            let ghost a = features@;
            features.push(FREQUENCY_TRANSACTIONS.to_owned());
            assert(texts(features@) =~= base + seq![FREQUENCY_TRANSACTIONS@]);
            if policy.scheduler_enabled && process {
                features.push(TASK_SCHEDULER.to_owned());
            }
            let ghost middle = texts(features@);
            assert(middle =~= base + (if policy.scheduler_enabled && process {
                seq![FREQUENCY_TRANSACTIONS@].push(TASK_SCHEDULER@)
            } else {
                seq![FREQUENCY_TRANSACTIONS@]
            }));
            if policy.scheduler_enabled && policy.has_cgroup_classes && systemd {
                features.push(SYSTEMD_CGROUP.to_owned());
                assert(texts(features@) =~= middle.push(SYSTEMD_CGROUP@));
            }
            assert(texts(features@) =~= base + runtime_features(self@));
        }
        Capabilities { modes, targets, features }
    }

    /// The loads for clients.
    fn published_loads(&self) -> (out: Vec<CpuLoad>)
        ensures
            out@ == load_views(self@.observed.cpu_loads),
    {
        let mut out: Vec<CpuLoad> = Vec::new();
        let mut i: usize = 0;
        while i < self.observed.cpu_loads.len()
            invariant
                i <= self.observed.cpu_loads@.len(),
                out@ == load_views(self.observed.cpu_loads@).take(i as int),
            decreases self.observed.cpu_loads@.len() - i,
        {
            let s = self.observed.cpu_loads[i];
            let points: u16 = if s.load.total == 0 {
                0
            } else {
                utilization_to_basis_points(s.load)
            };
            out.push(CpuLoad { cpu_id: s.cpu, utilization_basis_points: points });
            i = i + 1;
            assert(out@ =~= load_views(self.observed.cpu_loads@).take(i as int));
        }
        assert(load_views(self.observed.cpu_loads@).take(i as int) =~= load_views(
            self.observed.cpu_loads@,
        ));
        out
    }

    /// The rules for clients.
    fn published_rules(&self) -> (out: Vec<AppRule>)
        ensures
            out@.len() == self@.configuration.apps.len(),
            forall|i: int|
                0 <= i < out@.len() ==> (#[trigger] out@[i])@ == client_rule(
                    self@.configuration.apps[i],
                ),
    {
        let mut out: Vec<AppRule> = Vec::new();
        let mut i: usize = 0;
        while i < self.configuration.apps.len()
            invariant
                i <= self.configuration.apps@.len(),
                out@.len() == i,
                forall|j: int|
                    0 <= j < i ==> (#[trigger] out@[j])@ == client_rule(
                        self@.configuration.apps[j],
                    ),
            decreases self.configuration.apps@.len() - i,
        {
            out.push(core_rule_to_api(&self.configuration.apps[i]));
            i = i + 1;
        }
        out
    }

    /// The status for clients.
    pub fn daemon_status(&self, version: ApiVersion, daemon_version: &str, now: u64) -> (s: DaemonStatus)
        ensures
            s@ == status_view(
                self@,
                version,
                daemon_version@,
                self.health_issues.keys(),
                self.configuration.targets.keys(),
                now,
            ),
    {
        let health = self.health();
        let state = if self.gates.stop_requested {
            "stopping"
        } else if same(health.state.as_str(), "healthy") {
            "running"
        } else {
            "degraded"
        };
        DaemonStatus {
            api_version: version,
            daemon_version: daemon_version.to_owned(),
            state: state.to_owned(),
            health,
            mode: mode_name(self.selection.mode).to_owned(),
            effective_profile: profile_name(self.effective_profile()).to_owned(),
            dominant_scene: scene_name(self.dominant_scene()).to_owned(),
            active_workload: self.api_active_workload(),
            thermal: self.thermal_status(),
            frequencies: self.frequency_statuses(now),
            config_generation: self.counters.config_generation,
            reconcile_generation: self.plans.applied.generation,
        }
    }

    /// One coherent picture for clients.
    pub fn published(&self, version: ApiVersion, daemon_version: &str, now: u64) -> (p: PublishedState)
        ensures
            p.state_revision == self@.counters.state_revision,
            p.capabilities@ == capabilities_view(self@),
            p.status@ == status_view(
                self@,
                version,
                daemon_version@,
                self.health_issues.keys(),
                self.configuration.targets.keys(),
                now,
            ),
            p.telemetry@ == telemetry_view(self@, self.configuration.targets.keys(), now),
            p.app_rules@.len() == self@.configuration.apps.len(),
            forall|i: int|
                0 <= i < p.app_rules@.len() ==> (#[trigger] p.app_rules@[i])@ == client_rule(
                    self@.configuration.apps[i],
                ),
    {
        PublishedState {
            state_revision: self.counters.state_revision,
            status: self.daemon_status(version, daemon_version, now),
            capabilities: self.runtime_capabilities(),
            telemetry: TelemetrySnapshot {
                sequence: self.counters.telemetry_sequence,
                monotonic_ms: self.observed.timestamp,
                cpu_loads: self.published_loads(),
                thermal: self.thermal_status(),
                frequencies: self.frequency_statuses(now),
            },
            app_rules: self.published_rules(),
        }
    }

    /// What clients know at the start.
    pub fn marks(&self) -> (marks: Marks)
        ensures
            marks.signature@ == signature(self@),
            marks.health@ == health_view(self@, self.health_issues.keys()),
            marks.actuator_read_only == self@.gates.actuator_read_only,
            marks.telemetry_sequence == self@.counters.telemetry_sequence,
    {
        Marks {
            signature: self.state_signature(),
            health: self.health(),
            actuator_read_only: self.gates.actuator_read_only,
            telemetry_sequence: self.counters.telemetry_sequence,
        }
    }

    /// Announces what changed since the clients were told. The first event, if
    /// any, is that the picture is replaced.
    pub fn announce_changes(&mut self, marks: &mut Marks) -> (out: (Vec<RuntimeEvent>, Changes))
        ensures
            ({
                let c = out.1;
                &&& out.0@ == announcements(c, final(self)@.counters.state_revision)
                &&& final(self)@ == announced(old(self)@, c)
                &&& c == changes(old(self)@, final(marks).health@, *old(marks))
                &&& final(marks).health@ == health_view(
                    old(self)@,
                    old(self).health_issues.keys(),
                )
                &&& final(marks).signature@ == signature(old(self)@)
                &&& final(marks).actuator_read_only == old(self)@.gates.actuator_read_only
                &&& final(marks).telemetry_sequence == old(self)@.counters.telemetry_sequence
            }),
    {
        let signature = self.state_signature();
        let health = self.health();
        let c = Changes {
            state: !signature.same_as(&marks.signature),
            health: !same_health(&health, &marks.health),
            capabilities: self.gates.capabilities_changed_pending || self.gates.actuator_read_only
                != marks.actuator_read_only,
            telemetry: self.counters.telemetry_sequence != marks.telemetry_sequence,
        };
        self.gates.capabilities_changed_pending = false;
        if c.state {
            self.counters.state_revision = self.counters.state_revision.saturating_add(1);
        }
        marks.signature = signature;
        marks.health = health;
        marks.actuator_read_only = self.gates.actuator_read_only;
        marks.telemetry_sequence = self.counters.telemetry_sequence;
        (announce(c, self.counters.state_revision), c)
    }
}

/// Whoever hears of a change already sees the new picture: where anything is
/// said, the first thing is that the picture is replaced.
pub proof fn picture_precedes_signals(c: Changes, revision: u64)
    ensures
        announcements(c, revision).len() > 0 ==> announcements(c, revision)[0]
            == RuntimeEvent::Published,
        c.state ==> announcements(c, revision).contains(RuntimeEvent::StateChanged(revision)),
{
    if c.state {
        assert(announcements(c, revision)[1] == RuntimeEvent::StateChanged(revision));
    }
}

/// The revision moves exactly with the control state.
pub proof fn revision_follows_the_state(m: Model, c: Changes)
    requires
        m.counters.state_revision < u64::MAX,
    ensures
        c.state <==> announced(m, c).counters.state_revision == m.counters.state_revision + 1,
        !c.state <==> announced(m, c).counters.state_revision == m.counters.state_revision,
{
}

/// Announcing changes nothing that clients see.
pub proof fn announcing_is_invisible(m: Model, c: Changes)
    ensures
        signature(announced(m, c)) == signature(m),
        thermal_view(announced(m, c)) == thermal_view(m),
        workload_view(announced(m, c)) == workload_view(m),
{
}

} // verus!
