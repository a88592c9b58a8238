//! The values that the daemon exchanges with its clients.

use vstd::prelude::*;
use crate::model::{seq_view, HealthIssue, IssueView};
use crate::text::{opt_text, same, texts};

verus! {

/// The version of the client interface.
#[derive(Clone, Copy, Debug, Default, PartialEq, Eq, Structural)]
pub struct ApiVersion {
    pub major: u32,
    pub minor: u32,
}

/// The feature name of atomic frequency limit batches.
pub const FREQUENCY_TRANSACTIONS: &'static str = "frequency-transactions";

/// The feature name of task scheduling.
pub const TASK_SCHEDULER: &'static str = "task-scheduler";

/// The feature name of control-group placement.
pub const SYSTEMD_CGROUP: &'static str = "systemd-cgroup";

/// The feature name of running-workload detection.
pub const RUNNING_WORKLOADS: &'static str = "running-workloads";

/// The feature name of thermal telemetry.
pub const THERMAL_GUARD: &'static str = "thermal-guard";

/// The feature name of workload selection.
pub const ACTIVE_WORKLOAD: &'static str = "active-workload";

/// A selectable mode.
#[derive(Debug, Default, PartialEq, Eq)]
pub struct ModeInfo {
    pub id: String,
    pub display_name: String,
    pub description: String,
}

/// The view of [`ModeInfo`].
pub struct ModeInfoView {
    pub id: Seq<char>,
    pub display_name: Seq<char>,
    pub description: Seq<char>,
}

impl View for ModeInfo {
    type V = ModeInfoView;

    open spec fn view(&self) -> ModeInfoView {
        ModeInfoView {
            id: self.id@,
            display_name: self.display_name@,
            description: self.description@,
        }
    }
}

/// A frequency domain that the daemon can control.
#[derive(Debug, Default, PartialEq, Eq)]
pub struct TargetCapability {
    pub id: String,
    pub kind: String,
    pub label: String,
    pub cpus: Vec<u32>,
    pub minimum_hz: u64,
    pub maximum_hz: u64,
    pub available_hz: Vec<u64>,
    pub can_override: bool,
}

/// The view of [`TargetCapability`].
pub struct CapabilityView {
    pub id: Seq<char>,
    pub kind: Seq<char>,
    pub label: Seq<char>,
    pub cpus: Seq<u32>,
    pub minimum_hz: u64,
    pub maximum_hz: u64,
    pub available_hz: Seq<u64>,
    pub can_override: bool,
}

impl View for TargetCapability {
    type V = CapabilityView;

    open spec fn view(&self) -> CapabilityView {
        CapabilityView {
            id: self.id@,
            kind: self.kind@,
            label: self.label@,
            cpus: self.cpus@,
            minimum_hz: self.minimum_hz,
            maximum_hz: self.maximum_hz,
            available_hz: self.available_hz@,
            can_override: self.can_override,
        }
    }
}

/// What the daemon offers.
#[derive(Debug, Default, PartialEq, Eq)]
pub struct Capabilities {
    pub modes: Vec<ModeInfo>,
    pub targets: Vec<TargetCapability>,
    pub features: Vec<String>,
}

/// The view of [`Capabilities`].
pub struct CapabilitiesView {
    pub modes: Seq<ModeInfoView>,
    pub targets: Seq<CapabilityView>,
    pub features: Seq<Seq<char>>,
}

impl View for Capabilities {
    type V = CapabilitiesView;

    open spec fn view(&self) -> CapabilitiesView {
        CapabilitiesView {
            modes: seq_view(self.modes@),
            targets: seq_view(self.targets@),
            features: texts(self.features@),
        }
    }
}

/// The state of one frequency domain.
#[derive(Debug, Default, PartialEq, Eq)]
pub struct FrequencyStatus {
    pub target_id: String,
    pub observed_available: bool,
    pub observed_min_hz: u64,
    pub observed_max_hz: u64,
    pub desired_available: bool,
    pub desired_min_hz: u64,
    pub desired_max_hz: u64,
    pub applied_verified: bool,
    pub applied_min_hz: u64,
    pub applied_max_hz: u64,
    pub override_active: bool,
    pub stale: bool,
}

/// The view of [`FrequencyStatus`].
pub struct FrequencyStatusView {
    pub target_id: Seq<char>,
    pub observed_available: bool,
    pub observed_min_hz: u64,
    pub observed_max_hz: u64,
    pub desired_available: bool,
    pub desired_min_hz: u64,
    pub desired_max_hz: u64,
    pub applied_verified: bool,
    pub applied_min_hz: u64,
    pub applied_max_hz: u64,
    pub override_active: bool,
    pub stale: bool,
}

impl View for FrequencyStatus {
    type V = FrequencyStatusView;

    open spec fn view(&self) -> FrequencyStatusView {
        FrequencyStatusView {
            target_id: self.target_id@,
            observed_available: self.observed_available,
            observed_min_hz: self.observed_min_hz,
            observed_max_hz: self.observed_max_hz,
            desired_available: self.desired_available,
            desired_min_hz: self.desired_min_hz,
            desired_max_hz: self.desired_max_hz,
            applied_verified: self.applied_verified,
            applied_min_hz: self.applied_min_hz,
            applied_max_hz: self.applied_max_hz,
            override_active: self.override_active,
            stale: self.stale,
        }
    }
}

/// The thermal verdict.
#[derive(Debug, Default, PartialEq, Eq)]
pub struct ThermalStatus {
    pub state: String,
    pub max_temperature_millicelsius: i32,
    pub cap_active: bool,
    pub sensors_stale: bool,
}

/// The view of [`ThermalStatus`].
pub struct ThermalStatusView {
    pub state: Seq<char>,
    pub max_temperature_millicelsius: i32,
    pub cap_active: bool,
    pub sensors_stale: bool,
}

impl View for ThermalStatus {
    type V = ThermalStatusView;

    open spec fn view(&self) -> ThermalStatusView {
        ThermalStatusView {
            state: self.state@,
            max_temperature_millicelsius: self.max_temperature_millicelsius,
            cap_active: self.cap_active,
            sensors_stale: self.sensors_stale,
        }
    }
}

/// The health of the daemon.
#[derive(Debug, Default, PartialEq, Eq)]
pub struct HealthStatus {
    pub state: String,
    pub read_only: bool,
    pub recovery_pending: bool,
    pub summary: String,
    pub issues: Vec<HealthIssue>,
}

/// The view of [`HealthStatus`].
pub struct HealthView {
    pub state: Seq<char>,
    pub read_only: bool,
    pub recovery_pending: bool,
    pub summary: Seq<char>,
    pub issues: Seq<IssueView>,
}

impl View for HealthStatus {
    type V = HealthView;

    open spec fn view(&self) -> HealthView {
        HealthView {
            state: self.state@,
            read_only: self.read_only,
            recovery_pending: self.recovery_pending,
            summary: self.summary@,
            issues: seq_view(self.issues@),
        }
    }
}

/// A process identity.
#[derive(Clone, Copy, Debug, Default, PartialEq, Eq, Structural)]
pub struct WorkloadIdentity {
    pub pid: u32,
    pub start_time_ticks: u64,
    pub uid: u32,
}

/// The workload that policy follows.
#[derive(Debug, Default, PartialEq, Eq)]
pub struct ActiveWorkload {
    pub present: bool,
    pub identity: WorkloadIdentity,
    pub name: String,
    pub requested_mode: String,
    pub effective_mode: String,
    pub source: String,
}

/// The view of [`ActiveWorkload`].
pub struct ActiveWorkloadView {
    pub present: bool,
    pub identity: WorkloadIdentity,
    pub name: Seq<char>,
    pub requested_mode: Seq<char>,
    pub effective_mode: Seq<char>,
    pub source: Seq<char>,
}

impl View for ActiveWorkload {
    type V = ActiveWorkloadView;

    open spec fn view(&self) -> ActiveWorkloadView {
        ActiveWorkloadView {
            present: self.present,
            identity: self.identity,
            name: self.name@,
            requested_mode: self.requested_mode@,
            effective_mode: self.effective_mode@,
            source: self.source@,
        }
    }
}

/// A request to follow a process.
#[derive(Debug, Default, PartialEq, Eq)]
pub struct WorkloadRequest {
    pub pid: u32,
    pub mode: String,
    pub reason: String,
}

/// The view of [`WorkloadRequest`].
pub struct WorkloadRequestView {
    pub pid: u32,
    pub mode: Seq<char>,
    pub reason: Seq<char>,
}

impl View for WorkloadRequest {
    type V = WorkloadRequestView;

    open spec fn view(&self) -> WorkloadRequestView {
        WorkloadRequestView {
            pid: self.pid,
            mode: self.mode@,
            reason: self.reason@,
        }
    }
}

/// A request to hold a frequency domain inside a window.
#[derive(Debug, Default, PartialEq, Eq)]
pub struct FrequencyOverride {
    pub target_id: String,
    pub min_hz: u64,
    pub max_hz: u64,
    pub ttl_ms: u64,
    pub reason: String,
}

/// The view of [`FrequencyOverride`].
pub struct OverrideView {
    pub target_id: Seq<char>,
    pub min_hz: u64,
    pub max_hz: u64,
    pub ttl_ms: u64,
    pub reason: Seq<char>,
}

impl View for FrequencyOverride {
    type V = OverrideView;

    open spec fn view(&self) -> OverrideView {
        OverrideView {
            target_id: self.target_id@,
            min_hz: self.min_hz,
            max_hz: self.max_hz,
            ttl_ms: self.ttl_ms,
            reason: self.reason@,
        }
    }
}

/// How far the scheduling plan of a workload is applied.
#[derive(Debug, Default, PartialEq, Eq)]
pub struct SchedulerStatus {
    pub enabled: bool,
    pub matched_rule: String,
    pub managed_tasks: u32,
    pub applied_tasks: u32,
    pub cgroup_class: String,
    pub systemd_unit: String,
    pub cgroup_applied: bool,
    pub warning: String,
}

/// The view of [`SchedulerStatus`].
pub struct SchedulerStatusView {
    pub enabled: bool,
    pub matched_rule: Seq<char>,
    pub managed_tasks: u32,
    pub applied_tasks: u32,
    pub cgroup_class: Seq<char>,
    pub systemd_unit: Seq<char>,
    pub cgroup_applied: bool,
    pub warning: Seq<char>,
}

impl View for SchedulerStatus {
    type V = SchedulerStatusView;

    open spec fn view(&self) -> SchedulerStatusView {
        SchedulerStatusView {
            enabled: self.enabled,
            matched_rule: self.matched_rule@,
            managed_tasks: self.managed_tasks,
            applied_tasks: self.applied_tasks,
            cgroup_class: self.cgroup_class@,
            systemd_unit: self.systemd_unit@,
            cgroup_applied: self.cgroup_applied,
            warning: self.warning@,
        }
    }
}

/// A process that looks like a workload.
#[derive(Debug, Default, PartialEq, Eq)]
pub struct RunningWorkload {
    pub identity: WorkloadIdentity,
    pub name: String,
    pub matched_pattern: String,
    pub active: bool,
    pub scheduler: SchedulerStatus,
}

/// The view of [`RunningWorkload`].
pub struct RunningWorkloadView {
    pub identity: WorkloadIdentity,
    pub name: Seq<char>,
    pub matched_pattern: Seq<char>,
    pub active: bool,
    pub scheduler: SchedulerStatusView,
}

impl View for RunningWorkload {
    type V = RunningWorkloadView;

    open spec fn view(&self) -> RunningWorkloadView {
        RunningWorkloadView {
            identity: self.identity,
            name: self.name@,
            matched_pattern: self.matched_pattern@,
            active: self.active,
            scheduler: self.scheduler@,
        }
    }
}

/// A persistent rule that pins a mode for matching processes.
#[derive(Debug, Default, PartialEq, Eq)]
pub struct AppRule {
    pub id: String,
    pub enabled: bool,
    pub owner_uid: u32,
    pub executable: Option<String>,
    pub comm_regex: Option<String>,
    pub mode: String,
    pub priority: i32,
}

/// The view of [`AppRule`].
pub struct AppRuleView {
    pub id: Seq<char>,
    pub enabled: bool,
    pub owner_uid: u32,
    pub executable: Option<Seq<char>>,
    pub comm_regex: Option<Seq<char>>,
    pub mode: Seq<char>,
    pub priority: i32,
}

impl View for AppRule {
    type V = AppRuleView;

    open spec fn view(&self) -> AppRuleView {
        AppRuleView {
            id: self.id@,
            enabled: self.enabled,
            owner_uid: self.owner_uid,
            executable: opt_text(self.executable),
            comm_regex: opt_text(self.comm_regex),
            mode: self.mode@,
            priority: self.priority,
        }
    }
}

/// The result of a configuration reload.
#[derive(Debug, Default, PartialEq, Eq)]
pub struct ReloadReport {
    pub config_generation: u64,
    pub warnings: Vec<String>,
    pub message: String,
}

/// The view of [`ReloadReport`].
pub struct ReloadReportView {
    pub config_generation: u64,
    pub warnings: Seq<Seq<char>>,
    pub message: Seq<char>,
}

impl View for ReloadReport {
    type V = ReloadReportView;

    open spec fn view(&self) -> ReloadReportView {
        ReloadReportView {
            config_generation: self.config_generation,
            warnings: texts(self.warnings@),
            message: self.message@,
        }
    }
}

/// A failed client call.
#[derive(Debug)]
pub enum ClientError {
    /// The connection itself failed.
    Transport(String),
    /// Client and daemon speak different versions.
    IncompatibleApi { client: ApiVersion, server: ApiVersion },
    /// The request was refused before it was sent.
    InvalidRequest(String),
    /// The daemon answered with an error.
    Remote { name: String, message: String },
}

/// The load of one CPU in hundredths of a percent.
#[derive(Clone, Copy, Debug, Default, PartialEq, Eq, Structural)]
pub struct CpuLoad {
    pub cpu_id: u32,
    pub utilization_basis_points: u16,
}

/// What the observers saw last.
#[derive(Debug, Default, PartialEq, Eq)]
pub struct TelemetrySnapshot {
    pub sequence: u64,
    pub monotonic_ms: u64,
    pub cpu_loads: Vec<CpuLoad>,
    pub thermal: ThermalStatus,
    pub frequencies: Vec<FrequencyStatus>,
}

/// The view of [`TelemetrySnapshot`].
pub struct TelemetryView {
    pub sequence: u64,
    pub monotonic_ms: u64,
    pub cpu_loads: Seq<CpuLoad>,
    pub thermal: ThermalStatusView,
    pub frequencies: Seq<FrequencyStatusView>,
}

impl View for TelemetrySnapshot {
    type V = TelemetryView;

    open spec fn view(&self) -> TelemetryView {
        TelemetryView {
            sequence: self.sequence,
            monotonic_ms: self.monotonic_ms,
            cpu_loads: self.cpu_loads@,
            thermal: self.thermal@,
            frequencies: seq_view(self.frequencies@),
        }
    }
}

/// The state of the daemon.
#[derive(Debug, Default, PartialEq, Eq)]
pub struct DaemonStatus {
    pub api_version: ApiVersion,
    pub daemon_version: String,
    pub state: String,
    pub health: HealthStatus,
    pub mode: String,
    pub effective_profile: String,
    pub dominant_scene: String,
    pub active_workload: ActiveWorkload,
    pub thermal: ThermalStatus,
    pub frequencies: Vec<FrequencyStatus>,
    pub config_generation: u64,
    pub reconcile_generation: u64,
}

/// The view of [`DaemonStatus`].
pub struct StatusView {
    pub api_version: ApiVersion,
    pub daemon_version: Seq<char>,
    pub state: Seq<char>,
    pub health: HealthView,
    pub mode: Seq<char>,
    pub effective_profile: Seq<char>,
    pub dominant_scene: Seq<char>,
    pub active_workload: ActiveWorkloadView,
    pub thermal: ThermalStatusView,
    pub frequencies: Seq<FrequencyStatusView>,
    pub config_generation: u64,
    pub reconcile_generation: u64,
}

impl View for DaemonStatus {
    type V = StatusView;

    open spec fn view(&self) -> StatusView {
        StatusView {
            api_version: self.api_version,
            daemon_version: self.daemon_version@,
            state: self.state@,
            health: self.health@,
            mode: self.mode@,
            effective_profile: self.effective_profile@,
            dominant_scene: self.dominant_scene@,
            active_workload: self.active_workload@,
            thermal: self.thermal@,
            frequencies: seq_view(self.frequencies@),
            config_generation: self.config_generation,
            reconcile_generation: self.reconcile_generation,
        }
    }
}

/// A copy of a list of numbers.
pub fn copy_u32s(v: &Vec<u32>) -> (out: Vec<u32>)
    ensures
        out@ == v@,
{
    let mut out: Vec<u32> = Vec::new();
    let mut i: usize = 0;
    while i < v.len()
        invariant
            i <= v@.len(),
            out@ == v@.take(i as int),
        decreases v@.len() - i,
    {
        out.push(v[i]);
        i = i + 1;
        assert(out@ =~= v@.take(i as int));
    }
    assert(v@.take(i as int) =~= v@);
    out
}

/// A copy of a list of numbers.
pub fn copy_u64s(v: &Vec<u64>) -> (out: Vec<u64>)
    ensures
        out@ == v@,
{
    let mut out: Vec<u64> = Vec::new();
    let mut i: usize = 0;
    while i < v.len()
        invariant
            i <= v@.len(),
            out@ == v@.take(i as int),
        decreases v@.len() - i,
    {
        out.push(v[i]);
        i = i + 1;
        assert(out@ =~= v@.take(i as int));
    }
    assert(v@.take(i as int) =~= v@);
    out
}

impl ModeInfo {
    /// A copy of this mode.
    pub fn duplicate(&self) -> (out: ModeInfo)
        ensures
            out@ == self@,
    {
        ModeInfo {
            id: self.id.clone(),
            display_name: self.display_name.clone(),
            description: self.description.clone(),
        }
    }
}

impl TargetCapability {
    /// A copy of this target.
    pub fn duplicate(&self) -> (out: TargetCapability)
        ensures
            out@ == self@,
    {
        TargetCapability {
            id: self.id.clone(),
            kind: self.kind.clone(),
            label: self.label.clone(),
            cpus: copy_u32s(&self.cpus),
            minimum_hz: self.minimum_hz,
            maximum_hz: self.maximum_hz,
            available_hz: copy_u64s(&self.available_hz),
            can_override: self.can_override,
        }
    }
}

impl FrequencyStatus {
    /// A copy of this state.
    pub fn duplicate(&self) -> (out: FrequencyStatus)
        ensures
            out@ == self@,
    {
        FrequencyStatus {
            target_id: self.target_id.clone(),
            observed_available: self.observed_available,
            observed_min_hz: self.observed_min_hz,
            observed_max_hz: self.observed_max_hz,
            desired_available: self.desired_available,
            desired_min_hz: self.desired_min_hz,
            desired_max_hz: self.desired_max_hz,
            applied_verified: self.applied_verified,
            applied_min_hz: self.applied_min_hz,
            applied_max_hz: self.applied_max_hz,
            override_active: self.override_active,
            stale: self.stale,
        }
    }
}

impl ThermalStatus {
    /// A copy of this verdict.
    pub fn duplicate(&self) -> (out: ThermalStatus)
        ensures
            out@ == self@,
    {
        ThermalStatus {
            state: self.state.clone(),
            max_temperature_millicelsius: self.max_temperature_millicelsius,
            cap_active: self.cap_active,
            sensors_stale: self.sensors_stale,
        }
    }
}

impl ActiveWorkload {
    /// A copy of this workload.
    pub fn duplicate(&self) -> (out: ActiveWorkload)
        ensures
            out@ == self@,
    {
        ActiveWorkload {
            present: self.present,
            identity: self.identity,
            name: self.name.as_str().to_owned(),
            requested_mode: self.requested_mode.as_str().to_owned(),
            effective_mode: self.effective_mode.as_str().to_owned(),
            source: self.source.as_str().to_owned(),
        }
    }
}

impl Capabilities {
    /// Whether a feature is offered.
    pub fn supports(&self, name: &str) -> (r: bool)
        ensures
            r == self@.features.contains(name@),
    {
        let mut i: usize = 0;
        while i < self.features.len()
            invariant
                i <= self.features@.len(),
                forall|j: int| 0 <= j < i ==> (#[trigger] self.features@[j])@ != name@,
            decreases self.features@.len() - i,
        {
            if same(self.features[i].as_str(), name) {
                assert(self@.features[i as int] == name@);
                return true;
            }
            i = i + 1;
        }
        false
    }
}

} // verus!
