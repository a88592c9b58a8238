//! Operating-system ports used by the scheduler, the observers and the
//! actuator, and the observations that pass through them.

use vstd::prelude::*;
use crate::cpuset::CpuIds;
use crate::model::{ProcessInfo, SchedulingClass, ThermalReading};

verus! {

/// What kind of failure the operating system reported.
#[derive(Clone, Copy, Debug, PartialEq, Eq, Structural)]
pub enum IoKind {
    NotFound,
    PermissionDenied,
    InvalidData,
    InvalidInput,
    BrokenPipe,
    TimedOut,
    Interrupted,
    WouldBlock,
    Other,
}

/// A failed operating-system call.
#[derive(Debug)]
pub struct IoFailure {
    pub kind: IoKind,
    /// The error number of the call, where it has one.
    pub code: Option<i32>,
    pub message: String,
}

/// A failure while observing or mutating an operating-system resource.
#[derive(Debug)]
pub enum PlatformError {
    /// A filesystem or operating-system call failed.
    Io { operation: &'static str, path: String, source: IoFailure },
    /// An operating-system value was present but malformed.
    InvalidData { path: String, message: String },
    /// The caller requested an operation outside the adapter's authority.
    AccessDenied { path: String, reason: String },
    /// The platform does not implement the requested capability.
    Unsupported(&'static str),
    /// A transient race occurred, for example a process exiting during a scan.
    Disappeared(String),
}

/// The view of [`PlatformError`].
pub enum PlatformErrorView {
    Io { operation: Seq<char>, path: Seq<char>, source: IoView },
    InvalidData { path: Seq<char>, message: Seq<char> },
    AccessDenied { path: Seq<char>, reason: Seq<char> },
    Unsupported(Seq<char>),
    Disappeared(Seq<char>),
}

/// The view of [`IoFailure`].
pub struct IoView {
    pub kind: IoKind,
    pub code: Option<i32>,
    pub message: Seq<char>,
}

impl PlatformErrorView {
    /// The message shown for this error.
    pub open spec fn text(self) -> Seq<char> {
        match self {
            PlatformErrorView::Io { operation, path, source } => operation + " failed for "@ + path
                + ": "@ + source.message,
            PlatformErrorView::InvalidData { path, message } => "invalid data in "@ + path + ": "@
                + message,
            PlatformErrorView::AccessDenied { path, reason } => "access to "@ + path
                + " was denied: "@ + reason,
            PlatformErrorView::Unsupported(what) => "unsupported platform capability: "@ + what,
            PlatformErrorView::Disappeared(what) => "resource disappeared while being observed: "@
                + what,
        }
    }
}

impl View for IoFailure {
    type V = IoView;

    open spec fn view(&self) -> IoView {
        IoView { kind: self.kind, code: self.code, message: self.message@ }
    }
}

impl View for PlatformError {
    type V = PlatformErrorView;

    open spec fn view(&self) -> PlatformErrorView {
        match *self {
            PlatformError::Io { operation, path, source } => PlatformErrorView::Io {
                operation: operation@,
                path: path@,
                source: source@,
            },
            PlatformError::InvalidData { path, message } => PlatformErrorView::InvalidData {
                path: path@,
                message: message@,
            },
            PlatformError::AccessDenied { path, reason } => PlatformErrorView::AccessDenied {
                path: path@,
                reason: reason@,
            },
            PlatformError::Unsupported(what) => PlatformErrorView::Unsupported(what@),
            PlatformError::Disappeared(what) => PlatformErrorView::Disappeared(what@),
        }
    }
}

/// Malformed data in the given resource.
pub open spec fn malformed(path: Seq<char>, message: Seq<char>) -> PlatformErrorView {
    PlatformErrorView::InvalidData { path, message }
}

/// Result type shared by all operating-system ports.
pub type PlatformResult<T> = Result<T, PlatformError>;

impl PlatformError {
    /// An I/O error that retains the resource path.
    pub fn io(operation: &'static str, path: &str, source: IoFailure) -> (e: Self)
        ensures
            e@ == (PlatformErrorView::Io { operation: operation@, path: path@, source: source@ }),
    {
        PlatformError::Io { operation, path: path.to_owned(), source }
    }

    /// A malformed-input error.
    pub fn invalid(path: &str, message: &str) -> (e: Self)
        ensures
            e@ == malformed(path@, message@),
    {
        PlatformError::InvalidData { path: path.to_owned(), message: message.to_owned() }
    }

    /// The message shown for this error.
    pub open spec fn text(self) -> Seq<char> {
        self@.text()
    }

    /// The message shown for this error.
    pub fn message(&self) -> (out: String)
        ensures
            out@ == self.text(),
    {
        let mut out = String::new();
        match self {
            PlatformError::Io { operation, path, source } => {
                out.append(*operation);
                out.append(" failed for ");
                out.append(path.as_str());
                out.append(": ");
                out.append(source.message.as_str());
            },
            PlatformError::InvalidData { path, message } => {
                out.append("invalid data in ");
                out.append(path.as_str());
                out.append(": ");
                out.append(message.as_str());
            },
            PlatformError::AccessDenied { path, reason } => {
                out.append("access to ");
                out.append(path.as_str());
                out.append(" was denied: ");
                out.append(reason.as_str());
            },
            PlatformError::Unsupported(what) => {
                out.append("unsupported platform capability: ");
                out.append(*what);
            },
            PlatformError::Disappeared(what) => {
                out.append("resource disappeared while being observed: ");
                out.append(what.as_str());
            },
        }
        assert(out@ =~= self.text());
        out
    }
}

/// Monotonic time source used for expiry, sampling and deterministic tests.
pub trait Clock {
    /// Milliseconds elapsed on a monotonic clock.
    fn monotonic_millis(&self) -> u64;
}

/// Narrow text I/O surface for sysfs. Paths are logical absolute `/sys/...`
/// paths; an implementation never interprets `..` components.
pub trait SysfsIo {
    /// Reads and trims a sysfs text attribute.
    fn read_string(&self, path: &str) -> PlatformResult<String>;

    /// Replaces a sysfs text attribute. Implementations deny writes by default.
    fn write_string(&self, path: &str, value: &str) -> PlatformResult<()>;
}

/// CPU time counters in scheduler ticks.
#[derive(Clone, Copy, Debug, PartialEq, Eq, Structural)]
pub struct CpuTimes {
    pub user: u64,
    pub nice: u64,
    pub system: u64,
    pub idle: u64,
    pub io_wait: u64,
    pub irq: u64,
    pub soft_irq: u64,
    pub steal: u64,
}

impl Default for CpuTimes {
    fn default() -> (t: Self)
        ensures
            t == CpuTimes::counters(0, 0, 0, 0, 0, 0, 0, 0),
    {
        CpuTimes {
            user: 0,
            nice: 0,
            system: 0,
            idle: 0,
            io_wait: 0,
            irq: 0,
            soft_irq: 0,
            steal: 0,
        }
    }
}

/// The share of busy ticks in an interval: `busy` of `total`.
#[derive(Clone, Copy, Debug, PartialEq, Eq, Structural)]
pub struct LoadRatio {
    pub busy: u64,
    pub total: u64,
}

impl CpuTimes {
    /// The eight counters in the order of the kernel.
    pub open spec fn counters(
        user: u64,
        nice: u64,
        system: u64,
        idle: u64,
        io_wait: u64,
        irq: u64,
        soft_irq: u64,
        steal: u64,
    ) -> CpuTimes {
        CpuTimes { user, nice, system, idle, io_wait, irq, soft_irq, steal }
    }

    /// The sum of all counters.
    pub open spec fn sum(self) -> int {
        self.user + self.nice + self.system + self.idle + self.io_wait + self.irq + self.soft_irq
            + self.steal
    }

    /// Whether no counter is below its earlier value.
    pub open spec fn not_before(self, previous: CpuTimes) -> bool {
        &&& previous.user <= self.user
        &&& previous.nice <= self.nice
        &&& previous.system <= self.system
        &&& previous.idle <= self.idle
        &&& previous.io_wait <= self.io_wait
        &&& previous.irq <= self.irq
        &&& previous.soft_irq <= self.soft_irq
        &&& previous.steal <= self.steal
    }

    /// The ticks that passed idle since `previous`.
    pub open spec fn idle_since(self, previous: CpuTimes) -> int {
        (self.idle - previous.idle) + (self.io_wait - previous.io_wait)
    }

    /// The share of busy ticks since `previous`: none where a counter went
    /// backwards, where nothing passed, or where the sum leaves the counter
    /// range.
    pub open spec fn load_since(self, previous: CpuTimes) -> Option<LoadRatio> {
        let total = self.sum() - previous.sum();
        if self.not_before(previous) && 0 < total <= u64::MAX {
            Some(
                LoadRatio {
                    busy: (total - self.idle_since(previous)) as u64,
                    total: total as u64,
                },
            )
        } else {
            None
        }
    }

    /// The sum of all counters, where it fits the counter range.
    pub fn total(&self) -> (r: Option<u64>)
        ensures
            r == (if self.sum() <= u64::MAX {
                Some(self.sum() as u64)
            } else {
                None
            }),
    {
        let total: u128 = self.user as u128 + self.nice as u128 + self.system as u128
            + self.idle as u128 + self.io_wait as u128 + self.irq as u128 + self.soft_irq as u128
            + self.steal as u128;
        if total <= u64::MAX as u128 {
            Some(total as u64)
        } else {
            None
        }
    }

    /// The share of busy ticks between two counter samples. Counter regression
    /// and a zero-width interval give `None`; callers mark that sample stale
    /// rather than inventing a load value.
    pub fn utilization_since(self, previous: Self) -> (r: Option<LoadRatio>)
        ensures
            r == self.load_since(previous),
    {
        if self.user < previous.user || self.nice < previous.nice || self.system < previous.system
            || self.idle < previous.idle || self.io_wait < previous.io_wait || self.irq
            < previous.irq || self.soft_irq < previous.soft_irq || self.steal < previous.steal {
            return None;
        }
        let idle: u128 = (self.idle - previous.idle) as u128 + (self.io_wait
            - previous.io_wait) as u128;
        let total: u128 = idle + (self.user - previous.user) as u128 + (self.nice
            - previous.nice) as u128 + (self.system - previous.system) as u128 + (self.irq
            - previous.irq) as u128 + (self.soft_irq - previous.soft_irq) as u128 + (self.steal
            - previous.steal) as u128;
        if total == 0 || total > u64::MAX as u128 {
            return None;
        }
        Some(LoadRatio { busy: (total - idle) as u64, total: total as u64 })
    }
}

/// A load share never exceeds the whole.
pub proof fn load_is_a_share(current: CpuTimes, previous: CpuTimes)
    ensures
        match current.load_since(previous) {
            Some(r) => 0 < r.total && r.busy <= r.total,
            None => true,
        },
{
}

/// The counters of one CPU, under its kernel identifier.
#[derive(Clone, Copy, Debug, PartialEq, Eq, Structural)]
pub struct CpuCounters {
    pub cpu: u32,
    pub times: CpuTimes,
}

/// One reading of all CPU counters.
#[derive(Debug, PartialEq, Eq)]
pub struct CpuTimeSnapshot {
    /// Monotonic milliseconds.
    pub observed_at: u64,
    pub aggregate: CpuTimes,
    /// Per-CPU counters in ascending order of the identifier; identifiers need
    /// not be dense.
    pub cpus: Vec<CpuCounters>,
}

/// Process and CPU observations from procfs.
pub trait ProcReader {
    /// Reads aggregate and per-CPU cumulative counters.
    fn cpu_times(&self) -> PlatformResult<CpuTimeSnapshot>;

    /// Lists the process identifiers currently present.
    fn list_processes(&self) -> PlatformResult<Vec<u32>>;

    /// Lists the thread identifiers currently belonging to a process.
    fn list_threads(&self, process: u32) -> PlatformResult<Vec<u32>>;

    /// Resolves stable process identity and display metadata.
    fn process_identity(&self, pid: u32) -> PlatformResult<ProcessInfo>;
}

/// Observes the CPU set currently online for affinity validation.
pub trait OnlineCpuSource {
    /// Reads the live, potentially sparse CPU-online mask.
    fn online_cpus(&self) -> PlatformResult<CpuIds>;
}

/// Complete read-only port used by the daemon reducer and reconciler.
pub trait RuntimePlatform: Clock + ProcReader + OnlineCpuSource {}

impl<T> RuntimePlatform for T where T: Clock + ProcReader + OnlineCpuSource {}

/// A temperature observation tied to a discovered thermal-zone identity.
#[derive(Debug, PartialEq, Eq)]
pub struct ThermalSample {
    pub zone_id: String,
    pub zone_type: String,
    /// Logical sysfs directory from which this sample was read.
    pub path: String,
    pub reading: ThermalReading,
}

/// Identity assigned to one open physical input-device instance. An identity is
/// never reused during the lifetime of an input source.
#[derive(Clone, Copy, Debug, PartialEq, Eq, Structural)]
pub struct InputDeviceId(pub u64);

impl InputDeviceId {
    /// An adapter-scoped device identity.
    pub fn new(value: u64) -> (id: Self)
        ensures
            id == InputDeviceId(value),
    {
        InputDeviceId(value)
    }
}

/// Stable identity of one contact for the duration of its touch.
#[derive(Clone, Copy, Debug, PartialEq, Eq, Structural)]
pub struct TouchContactId {
    pub device: InputDeviceId,
    pub tracking_id: u32,
}

impl TouchContactId {
    /// Combines a device instance with the kernel tracking identifier.
    pub fn new(device: InputDeviceId, tracking_id: u32) -> (id: Self)
        ensures
            id == (TouchContactId { device, tracking_id }),
    {
        TouchContactId { device, tracking_id }
    }
}

/// A coordinate as a share of its axis: `offset` steps of `span`.
#[derive(Clone, Copy, Debug, PartialEq, Eq, Structural)]
pub struct AxisShare {
    pub offset: u32,
    pub span: u32,
}

/// A position on a touch surface.
#[derive(Clone, Copy, Debug, PartialEq, Eq, Structural)]
pub struct Point {
    pub x: AxisShare,
    pub y: AxisShare,
}

/// Interaction events consumed by the scene reducer.
#[derive(Clone, Copy, Debug, PartialEq, Eq, Structural)]
pub enum InputEvent {
    TouchDown { contact: TouchContactId, at: Point },
    TouchUp { contact: TouchContactId, at: Point },
    /// A contact travelled far enough, between the two given points.
    Gesture { contact: TouchContactId, from: Point, to: Point },
    /// Discard contacts for one device, or for every device when `device` is
    /// absent.
    Resync { device: Option<InputDeviceId> },
}

/// Scheduler state whose original value is recorded before mutation.
#[derive(Debug, PartialEq, Eq)]
pub struct ProcessSchedulingState {
    pub affinity: CpuIds,
    pub nice: i8,
    pub policy: SchedulingClass,
    /// The real-time priority, for the real-time policy only.
    pub rt_priority: Option<u8>,
    pub uclamp_min: Option<u16>,
    pub uclamp_max: Option<u16>,
}

/// The view of [`ProcessSchedulingState`].
pub struct SchedulingView {
    pub affinity: Set<u32>,
    pub nice: i8,
    pub policy: SchedulingClass,
    pub rt_priority: Option<u8>,
    pub uclamp_min: Option<u16>,
    pub uclamp_max: Option<u16>,
}

impl View for ProcessSchedulingState {
    type V = SchedulingView;

    open spec fn view(&self) -> SchedulingView {
        SchedulingView {
            affinity: self.affinity@,
            nice: self.nice,
            policy: self.policy,
            rt_priority: self.rt_priority,
            uclamp_min: self.uclamp_min,
            uclamp_max: self.uclamp_max,
        }
    }
}

impl ProcessSchedulingState {
    /// Whether two states agree in every respect.
    pub fn same_as(&self, other: &ProcessSchedulingState) -> (r: bool)
        ensures
            r == (self@ == other@),
    {
        self.affinity.same_as(&other.affinity) && self.nice == other.nice && self.policy
            == other.policy && self.rt_priority == other.rt_priority && self.uclamp_min
            == other.uclamp_min && self.uclamp_max == other.uclamp_max
    }

    /// A copy of this state.
    pub fn duplicate(&self) -> (out: Self)
        ensures
            out@ == self@,
    {
        ProcessSchedulingState {
            affinity: self.affinity.duplicate(),
            nice: self.nice,
            policy: self.policy,
            rt_priority: self.rt_priority,
            uclamp_min: self.uclamp_min,
            uclamp_max: self.uclamp_max,
        }
    }
}

/// Typed process and thread scheduling mutations.
pub trait ProcessController {
    /// Reads the verified scheduler state.
    fn read_scheduling(&self, process: u32) -> PlatformResult<ProcessSchedulingState>;

    /// Applies and reads back a scheduler state.
    fn write_scheduling(&self, process: u32, desired: &ProcessSchedulingState) -> PlatformResult<
        ProcessSchedulingState,
    >;
}

/// Subset of transient systemd unit properties used by the daemon.
#[derive(Debug, PartialEq, Eq)]
pub struct SystemdUnitProperties {
    pub cpu_weight: Option<u64>,
    pub allowed_cpus: Option<CpuIds>,
}

/// The view of [`SystemdUnitProperties`].
pub struct UnitView {
    pub cpu_weight: Option<u64>,
    pub allowed_cpus: Option<Set<u32>>,
}

/// The view of an optional CPU set.
pub open spec fn opt_cpus(v: Option<CpuIds>) -> Option<Set<u32>> {
    match v {
        Some(s) => Some(s@),
        None => None,
    }
}

impl View for SystemdUnitProperties {
    type V = UnitView;

    open spec fn view(&self) -> UnitView {
        UnitView { cpu_weight: self.cpu_weight, allowed_cpus: opt_cpus(self.allowed_cpus) }
    }
}

impl SystemdUnitProperties {
    /// A copy of these properties.
    pub fn duplicate(&self) -> (out: Self)
        ensures
            out@ == self@,
    {
        SystemdUnitProperties {
            cpu_weight: self.cpu_weight,
            allowed_cpus: match &self.allowed_cpus {
                Some(s) => Some(s.duplicate()),
                None => None,
            },
        }
    }
}

/// Stable identity of one activation of a systemd unit. Unit names are
/// reusable, so the activation key belongs to the identity.
#[derive(Debug, PartialEq, Eq)]
pub struct SystemdUnitInstanceIdentity {
    /// Validated systemd unit name.
    pub unit: String,
    /// Best stable key exported for this activation.
    pub key: SystemdUnitInstanceKey,
}

/// Stable key used to distinguish activations of a systemd unit.
#[derive(Debug, PartialEq, Eq)]
pub enum SystemdUnitInstanceKey {
    /// Nonzero invocation identifier, as its exact bytes.
    InvocationId([u8; 16]),
    /// Absolute control-group path.
    ControlGroup(String),
}

/// Port for systemd-owned cgroup changes.
pub trait SystemdClient {
    /// Resolves the systemd unit containing a process.
    fn unit_for_process(&self, process: u32) -> PlatformResult<Option<String>>;

    /// Resolves the stable instance identity of the unit containing a process.
    fn unit_instance_for_process(&self, process: u32) -> (r: PlatformResult<
        Option<SystemdUnitInstanceIdentity>,
    >)
        default_ensures
            exists|found: PlatformResult<Option<String>>|
                {
                    &&& #[trigger] call_ensures(Self::unit_for_process, (self, process), found)
                    &&& match found {
                        Err(e) => r is Err && r->Err_0 == e,
                        Ok(None) => r is Ok && r->Ok_0 is None,
                        Ok(Some(unit)) => exists|
                            name: &str,
                            identity: PlatformResult<SystemdUnitInstanceIdentity>,
                        |
                            {
                                &&& #[trigger] call_ensures(
                                    Self::unit_instance_identity,
                                    (self, name),
                                    identity,
                                )
                                &&& name@ == unit@
                                &&& match identity {
                                    Ok(i) => r is Ok && r->Ok_0 == Some(i),
                                    Err(e) => r is Err && r->Err_0 == e,
                                }
                            },
                    }
                },
    {
        match self.unit_for_process(process) {
            Err(e) => Err(e),
            Ok(None) => Ok(None),
            Ok(Some(unit)) => match self.unit_instance_identity(unit.as_str()) {
                Ok(identity) => Ok(Some(identity)),
                Err(e) => Err(e),
            },
        }
    }

    /// Reads the current stable instance identity for a named unit.
    fn unit_instance_identity(&self, unit: &str) -> (r: PlatformResult<SystemdUnitInstanceIdentity>)
        default_ensures
            r is Err,
            r->Err_0@ == PlatformErrorView::Unsupported("stable systemd unit instance identity"@),
    {
        Err(PlatformError::Unsupported("stable systemd unit instance identity"))
    }

    /// Lists the process identifiers currently contained in a unit.
    fn unit_processes(&self, unit: &str) -> PlatformResult<Vec<u32>>;

    /// Reads supported unit properties.
    fn read_unit_properties(&self, unit: &str) -> PlatformResult<SystemdUnitProperties>;

    /// Applies and reads back supported unit properties.
    fn write_unit_properties(&self, unit: &str, desired: &SystemdUnitProperties) -> PlatformResult<
        SystemdUnitProperties,
    >;
}

/// Durable byte store used by the actuator journal.
pub trait StateStore {
    /// Loads a durable state blob.
    fn load(&self) -> PlatformResult<Option<Vec<u8>>>;

    /// Atomically persists and syncs a state blob.
    fn store_durable(&self, bytes: &[u8]) -> PlatformResult<()>;

    /// Durably removes a state blob.
    fn remove_durable(&self) -> PlatformResult<()>;
}

} // verus!
