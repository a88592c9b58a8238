//! The domain model: profiles, scenes, thermal readings, frequency limits,
//! processes and health findings.

use vstd::prelude::*;
use crate::text::{chars_of, opt_text};

verus! {

/// The view of an optional value.
pub open spec fn opt_view<T: View>(v: Option<T>) -> Option<T::V> {
    match v {
        Some(x) => Some(x@),
        None => None,
    }
}

/// The views of a sequence of values.
pub open spec fn seq_view<T: View>(v: Seq<T>) -> Seq<T::V> {
    Seq::new(v.len(), |i: int| v[i]@)
}

/// A power profile.
#[derive(Clone, Copy, Debug, PartialEq, Eq, Structural)]
pub enum ProfileId {
    Powersave,
    Balance,
    Performance,
}

/// How the effective profile is chosen.
#[derive(Clone, Copy, Debug, PartialEq, Eq, Structural)]
pub enum ModeSelection {
    /// By policy.
    Auto,
    /// Always the given profile.
    Forced(ProfileId),
}

/// An interaction scene that policy reacts to.
#[derive(Clone, Copy, Debug, PartialEq, Eq, Structural)]
pub enum Scene {
    Idle,
    Touch,
    Trigger,
    Gesture,
    Switch,
    Boost,
    Wake,
}

/// The verdict over all trusted thermal sensors.
#[derive(Clone, Copy, Debug, PartialEq, Eq, Structural)]
pub enum ThermalState {
    Normal,
    Warning,
    Throttled,
    Critical,
    /// A trusted sensor is stale or missing.
    Degraded,
}

/// Whether a sensor reading can be trusted.
#[derive(Clone, Copy, Debug, PartialEq, Eq, Structural)]
pub enum SensorHealth {
    Healthy,
    Stale,
    Unavailable,
}

/// A scheduling policy of the kernel.
#[derive(Clone, Copy, Debug, PartialEq, Eq, Structural)]
pub enum SchedulingClass {
    Other,
    Batch,
    Idle,
    Fifo,
}

/// One reading of a thermal zone.
#[derive(Clone, Copy, Debug, PartialEq, Eq, Structural)]
pub struct ThermalReading {
    /// Millidegrees Celsius.
    pub temperature: Option<i64>,
    /// Monotonic milliseconds.
    pub sampled_at: u64,
    pub health: SensorHealth,
}

impl View for ThermalReading {
    type V = ThermalReading;

    open spec fn view(&self) -> ThermalReading {
        *self
    }
}

/// An inclusive frequency window in hertz.
#[derive(Clone, Copy, Debug, PartialEq, Eq, Structural)]
pub struct FrequencyLimits {
    pub min: u64,
    pub max: u64,
}

impl View for FrequencyLimits {
    type V = FrequencyLimits;

    open spec fn view(&self) -> FrequencyLimits {
        *self
    }
}

impl FrequencyLimits {
    /// A window, unless its ends are in the wrong order.
    pub fn new(min: u64, max: u64) -> (r: Option<Self>)
        ensures
            r == (if min <= max {
                Some(FrequencyLimits { min, max })
            } else {
                None
            }),
    {
        if min <= max {
            Some(FrequencyLimits { min, max })
        } else {
            None
        }
    }
}

/// A stable process identity: the start time tells reused process numbers
/// apart.
#[derive(Clone, Copy, Debug, PartialEq, Eq, Structural)]
pub struct ProcessIdentity {
    pub pid: u32,
    pub start_time_ticks: u64,
    pub uid: u32,
}

/// A process as observed once.
#[derive(Debug, PartialEq, Eq)]
pub struct ProcessInfo {
    pub identity: ProcessIdentity,
    /// Whether real, effective, saved and filesystem user are all the same.
    pub owner_control_safe: bool,
    pub comm: String,
    pub executable: Option<String>,
    pub desktop_id: Option<String>,
}

/// The view of [`ProcessInfo`].
pub struct ProcessView {
    pub identity: ProcessIdentity,
    pub owner_control_safe: bool,
    pub comm: Seq<char>,
    pub executable: Option<Seq<char>>,
    pub desktop_id: Option<Seq<char>>,
}

impl View for ProcessInfo {
    type V = ProcessView;

    open spec fn view(&self) -> ProcessView {
        ProcessView {
            identity: self.identity,
            owner_control_safe: self.owner_control_safe,
            comm: self.comm@,
            executable: opt_text(self.executable),
            desktop_id: opt_text(self.desktop_id),
        }
    }
}

/// A copy of an optional string.
pub fn copy_opt(v: &Option<String>) -> (out: Option<String>)
    ensures
        opt_text(out) == opt_text(*v),
{
    match v {
        Some(s) => Some(s.clone()),
        None => None,
    }
}

/// Whether two optional strings hold the same text.
pub fn same_opt(a: &Option<String>, b: &Option<String>) -> (r: bool)
    ensures
        r == (opt_text(*a) == opt_text(*b)),
{
    match (a, b) {
        (Some(x), Some(y)) => *x == *y,
        (None, None) => true,
        _ => false,
    }
}

impl ProcessInfo {
    /// A copy of this observation.
    pub fn duplicate(&self) -> (out: ProcessInfo)
        ensures
            out@ == self@,
    {
        ProcessInfo {
            identity: self.identity,
            owner_control_safe: self.owner_control_safe,
            comm: self.comm.clone(),
            executable: copy_opt(&self.executable),
            desktop_id: copy_opt(&self.desktop_id),
        }
    }

    /// Whether two observations agree in every field.
    pub fn same_as(&self, other: &ProcessInfo) -> (r: bool)
        ensures
            r == (self@ == other@),
    {
        self.identity == other.identity && self.owner_control_safe == other.owner_control_safe
            && self.comm == other.comm && same_opt(&self.executable, &other.executable) && same_opt(
            &self.desktop_id,
            &other.desktop_id,
        )
    }
}

/// One finding about the health of a component.
#[derive(Debug, PartialEq, Eq)]
pub struct HealthIssue {
    pub code: String,
    pub severity: String,
    pub component: String,
    pub message: String,
}

/// The view of [`HealthIssue`].
pub struct IssueView {
    pub code: Seq<char>,
    pub severity: Seq<char>,
    pub component: Seq<char>,
    pub message: Seq<char>,
}

impl View for HealthIssue {
    type V = IssueView;

    open spec fn view(&self) -> IssueView {
        IssueView {
            code: self.code@,
            severity: self.severity@,
            component: self.component@,
            message: self.message@,
        }
    }
}

/// The view of a finding with the given texts.
pub open spec fn issue_view(
    code: Seq<char>,
    severity: Seq<char>,
    component: Seq<char>,
    message: Seq<char>,
) -> IssueView {
    IssueView { code, severity, component, message }
}

/// A finding with the given texts.
pub fn issue(code: &str, severity: &str, component: &str, message: &str) -> (out: HealthIssue)
    ensures
        out@ == issue_view(code@, severity@, component@, message@),
{
    HealthIssue {
        code: code.to_owned(),
        severity: severity.to_owned(),
        component: component.to_owned(),
        message: message.to_owned(),
    }
}

impl HealthIssue {
    /// A copy of this finding.
    pub fn duplicate(&self) -> (out: HealthIssue)
        ensures
            out@ == self@,
    {
        issue(
            self.code.as_str(),
            self.severity.as_str(),
            self.component.as_str(),
            self.message.as_str(),
        )
    }
}

/// The length limit of identifiers.
pub const ID_MAX_LEN: usize = 64;

/// Whether `c` is an ASCII letter or digit.
pub open spec fn is_alphanumeric(c: char) -> bool {
    ('0' <= c && c <= '9') || ('a' <= c && c <= 'z') || ('A' <= c && c <= 'Z')
}

/// Whether `c` is an ASCII letter or digit.
pub fn char_is_alphanumeric(c: char) -> (r: bool)
    ensures
        r == is_alphanumeric(c),
{
    ('0' <= c && c <= '9') || ('a' <= c && c <= 'z') || ('A' <= c && c <= 'Z')
}

/// Whether `c` may stand in an identifier.
pub open spec fn is_id_char(c: char) -> bool {
    is_alphanumeric(c) || c == '.' || c == '_' || c == '-'
}

/// Whether `c` may stand in an identifier.
pub fn char_in_id(c: char) -> (r: bool)
    ensures
        r == is_id_char(c),
{
    char_is_alphanumeric(c) || c == '.' || c == '_' || c == '-'
}

/// Whether `s` is an identifier: letters, digits, dots, underscores and
/// hyphens, a letter or digit first, and not too long.
pub open spec fn valid_id(s: Seq<char>) -> bool {
    &&& 0 < s.len() <= ID_MAX_LEN
    &&& is_alphanumeric(s[0])
    &&& forall|i: int| 0 <= i < s.len() ==> is_id_char(#[trigger] s[i])
}

/// Whether `s` is an identifier.
pub fn is_valid_id(s: &str) -> (r: bool)
    ensures
        r == valid_id(s@),
{
    let chars = chars_of(s);
    if chars.len() == 0 || chars.len() > ID_MAX_LEN || !char_is_alphanumeric(chars[0]) {
        return false;
    }
    let mut i: usize = 0;
    while i < chars.len()
        invariant
            i <= chars@.len(),
            chars@ == s@,
            forall|j: int| 0 <= j < i ==> is_id_char(#[trigger] s@[j]),
        decreases chars@.len() - i,
    {
        if !char_in_id(chars[i]) {
            return false;
        }
        i = i + 1;
    }
    true
}

} // verus!
