//! Pure presentation logic of the desktop client: what is shown of the daemon's
//! state.

use vstd::prelude::*;
use crate::api::{
    ActiveWorkload, Capabilities, CapabilityView, DaemonStatus, FrequencyOverride, FrequencyStatus,
    FrequencyStatusView, HealthStatus, ModeInfo, ModeInfoView, OverrideView, TargetCapability,
    ThermalStatus, ThermalStatusView, ACTIVE_WORKLOAD, THERMAL_GUARD,
};
use crate::model::{opt_view, seq_view, IssueView};
use crate::number::{decimal_text, format_u64};
use crate::order::{ascending, insert_ascending};
use crate::text::{cat2, cat5, same};
use super::i18n::{
    known_message, localized_mode_description, localized_mode_label, localized_protocol_value,
    mode_description, mode_label, protocol_value, translate, translate_known, translation,
    Language,
};

verus! {

/// Whether the reporter of the focused window runs on this desktop.
#[derive(Clone, Copy, Debug, Default, PartialEq, Eq, Structural)]
pub enum ReporterState {
    /// Nothing is known.
    #[default]
    Unknown,
    /// It is not installed.
    Missing,
    /// It is installed but does not run.
    Disabled,
    /// It runs.
    Enabled,
}

/// How the focused window acts on the daemon.
#[derive(Clone, Copy, Debug, PartialEq, Eq, Structural)]
pub enum FocusState {
    Unsupported,
    Following,
    Overridden,
    Rejected,
    Waiting,
}

/// What the focus card offers to do.
#[derive(Clone, Copy, Debug, PartialEq, Eq, Structural)]
pub enum FocusAction {
    Nothing,
    EnableReporter,
    ClearExplicit,
}

/// What is shown of the daemon.
#[derive(Debug, PartialEq, Eq)]
pub struct ViewModel {
    pub daemon_state: String,
    pub health: HealthView,
    pub profile: String,
    pub scene: String,
    pub modes: Vec<ModeView>,
    pub targets: Vec<TargetView>,
    pub thermal: Option<ThermalView>,
    pub workload: Option<WorkloadView>,
}

/// The health summary and every finding of the daemon.
#[derive(Debug, PartialEq, Eq)]
pub struct HealthView {
    pub summary: String,
    pub issues: Vec<HealthIssueView>,
}

/// A finding as it is shown.
#[derive(Debug, PartialEq, Eq)]
pub struct HealthIssueView {
    pub message: String,
    pub detail: String,
}

/// The view of [`HealthIssueView`].
pub struct ShownIssue {
    pub message: Seq<char>,
    pub detail: Seq<char>,
}

impl View for HealthIssueView {
    type V = ShownIssue;

    open spec fn view(&self) -> ShownIssue {
        ShownIssue { message: self.message@, detail: self.detail@ }
    }
}

/// A mode that the daemon offers.
#[derive(Debug, PartialEq, Eq)]
pub struct ModeView {
    pub id: String,
    pub label: String,
    pub description: String,
    pub selected: bool,
}

/// The view of [`ModeView`].
pub struct ShownMode {
    pub id: Seq<char>,
    pub label: Seq<char>,
    pub description: Seq<char>,
    pub selected: bool,
}

impl View for ModeView {
    type V = ShownMode;

    open spec fn view(&self) -> ShownMode {
        ShownMode {
            id: self.id@,
            label: self.label@,
            description: self.description@,
            selected: self.selected,
        }
    }
}

/// A frequency target that the daemon offers.
#[derive(Debug, PartialEq, Eq)]
pub struct TargetView {
    pub capability: TargetCapability,
    pub status: Option<FrequencyStatus>,
    pub choices_hz: Vec<u64>,
}

/// The view of [`TargetView`].
pub struct ShownTarget {
    pub capability: CapabilityView,
    pub status: Option<FrequencyStatusView>,
    pub choices_hz: Seq<u64>,
}

impl View for TargetView {
    type V = ShownTarget;

    open spec fn view(&self) -> ShownTarget {
        ShownTarget {
            capability: self.capability@,
            status: opt_view(self.status),
            choices_hz: self.choices_hz@,
        }
    }
}

/// The thermal state as it is shown.
#[derive(Debug, PartialEq, Eq)]
pub struct ThermalView {
    pub state: String,
    pub temperature: String,
    pub detail: String,
}

/// The view of [`ThermalView`].
pub struct ShownThermal {
    pub state: Seq<char>,
    pub temperature: Seq<char>,
    pub detail: Seq<char>,
}

impl View for ThermalView {
    type V = ShownThermal;

    open spec fn view(&self) -> ShownThermal {
        ShownThermal {
            state: self.state@,
            temperature: self.temperature@,
            detail: self.detail@,
        }
    }
}

/// The active workload as it is shown.
#[derive(Debug, PartialEq, Eq)]
pub struct WorkloadView {
    pub active: ActiveWorkload,
}

/// The finding as it is shown in a language.
pub open spec fn issue_shown(language: Language, i: IssueView) -> ShownIssue {
    ShownIssue {
        message: known_message(language, i.message),
        detail: protocol_value(language, i.severity) + " · "@ + protocol_value(
            language,
            i.component,
        ) + " · "@ + i.code,
    }
}

/// The mode as it is shown in a language.
pub open spec fn mode_shown(language: Language, m: ModeInfoView, selected: Seq<char>) -> ShownMode {
    ShownMode {
        id: m.id,
        label: mode_label(language, m.id, m.display_name),
        description: mode_description(language, m.id, m.description),
        selected: m.id == selected,
    }
}

/// The frequencies that a target offers: its limits and the operating points
/// between them; none where the limits make no sense.
pub open spec fn offered_choices(t: CapabilityView) -> Set<u64> {
    if t.minimum_hz == 0 || t.maximum_hz < t.minimum_hz {
        Set::empty()
    } else {
        Set::new(
            |f: u64|
                f == t.minimum_hz || f == t.maximum_hz || (t.available_hz.contains(f)
                    && t.minimum_hz <= f <= t.maximum_hz),
        )
    }
}

/// The frequencies that a target offers, in ascending order, whatever kind of
/// target it is and however many operating points it has.
pub fn frequency_choices(target: &TargetCapability) -> (out: Vec<u64>)
    ensures
        ascending(out@),
        out@.to_set() == offered_choices(target@),
{
    let mut out: Vec<u64> = Vec::new();
    if target.minimum_hz == 0 || target.maximum_hz < target.minimum_hz {
        assert(out@.to_set() =~= offered_choices(target@));
        return out;
    }
    let low: u64 = target.minimum_hz;
    let high: u64 = target.maximum_hz;
    insert_ascending(&mut out, low);
    insert_ascending(&mut out, high);
    let all = &target.available_hz;
    let mut i: usize = 0;
    assert(out@.to_set() =~= Set::new(|f: u64| f == low || f == high));
    while i < all.len()
        invariant
            i <= all@.len(),
            ascending(out@),
            forall|f: u64| #[trigger]
                out@.to_set().contains(f) <==> (f == low || f == high || (all@.take(
                    i as int,
                ).contains(f) && low <= f <= high)),
        decreases all@.len() - i,
    {
        let f: u64 = all[i];
        if low <= f && f <= high {
            insert_ascending(&mut out, f);
        }
        proof {
            let t = all@.take(i as int);
            let u = all@.take(i + 1);
            assert(u =~= t.push(f));
            assert forall|g: u64| u.contains(g) <==> (t.contains(g) || g == f) by {
                if t.contains(g) {
                    let k = choose|k: int| 0 <= k < t.len() && t[k] == g;
                    assert(u[k] == g);
                }
                assert(u[i as int] == f);
            }
        }
        i = i + 1;
    }
    assert(all@.take(all@.len() as int) =~= all@);
    assert(out@.to_set() =~= offered_choices(target@));
    out
}

/// Why a window cannot be asked for, if so.
pub open spec fn override_fault(t: CapabilityView, minimum_hz: u64, maximum_hz: u64) -> Option<
    Seq<char>,
> {
    if !t.can_override {
        Some(t.label + " does not allow manual overrides"@)
    } else if minimum_hz > maximum_hz {
        Some("minimum frequency exceeds maximum frequency"@)
    } else if minimum_hz < t.minimum_hz || maximum_hz > t.maximum_hz {
        Some("requested frequencies exceed the advertised hardware bounds"@)
    } else if t.available_hz.len() > 0 && !(t.available_hz.contains(minimum_hz)
        && t.available_hz.contains(maximum_hz)) {
        Some("requested frequency is not an advertised operating point"@)
    } else {
        None
    }
}

fn lists_frequency(v: &Vec<u64>, f: u64) -> (r: bool)
    ensures
        r == v@.contains(f),
{
    let mut i: usize = 0;
    while i < v.len()
        invariant
            i <= v@.len(),
            forall|k: int| 0 <= k < i ==> v@[k] != f,
        decreases v@.len() - i,
    {
        if v[i] == f {
            return true;
        }
        i = i + 1;
    }
    false
}

/// The override that is asked for: the window of a target, without an end.
pub open spec fn override_of(t: CapabilityView, minimum_hz: u64, maximum_hz: u64) -> OverrideView {
    OverrideView {
        target_id: t.id,
        min_hz: minimum_hz,
        max_hz: maximum_hz,
        ttl_ms: 0,
        reason: "confirmed in uperf-gui"@,
    }
}

/// The request for a window, or why it cannot be asked for.
pub fn frequency_override(target: &TargetCapability, minimum_hz: u64, maximum_hz: u64) -> (r: Result<
    FrequencyOverride,
    String,
>)
    ensures
        match r {
            Ok(o) => {
                &&& override_fault(target@, minimum_hz, maximum_hz) is None
                &&& o@ == override_of(target@, minimum_hz, maximum_hz)
            },
            Err(e) => override_fault(target@, minimum_hz, maximum_hz) == Some(e@),
        },
{
    if !target.can_override {
        return Err(cat2(target.label.as_str(), " does not allow manual overrides"));
    }
    if minimum_hz > maximum_hz {
        return Err("minimum frequency exceeds maximum frequency".to_owned());
    }
    if minimum_hz < target.minimum_hz || maximum_hz > target.maximum_hz {
        return Err("requested frequencies exceed the advertised hardware bounds".to_owned());
    }
    if target.available_hz.len() > 0 && !(lists_frequency(&target.available_hz, minimum_hz)
        && lists_frequency(&target.available_hz, maximum_hz)) {
        return Err("requested frequency is not an advertised operating point".to_owned());
    }
    Ok(
        FrequencyOverride {
            target_id: target.id.as_str().to_owned(),
            min_hz: minimum_hz,
            max_hz: maximum_hz,
            ttl_ms: 0,
            reason: "confirmed in uperf-gui".to_owned(),
        },
    )
}

/// The dividend of a quotient by one thousand, doubled until the quotient has
/// the fifty-three digits of a double.
pub open spec fn scaled(x: nat) -> nat
    decreases
            (if x < 4_503_599_627_370_496_000 {
                4_503_599_627_370_496_000 - x
            } else {
                0
            }),
{
    if x == 0 || x >= 4_503_599_627_370_496_000 {
        x
    } else {
        scaled(2 * x)
    }
}

/// The tenths of a degree that are shown for thousandths: the double nearest to
/// the degrees, rounded to one decimal place, where a tie goes to the even
/// digit.
pub open spec fn shown_tenths(thousandths: nat) -> nat {
    let whole = thousandths / 100;
    let rest = thousandths % 100;
    let x = scaled(thousandths);
    let up = if rest != 50 {
        rest > 50
    } else if x % 1000 == 0 {
        whole % 2 == 1
    } else {
        x % 1000 > 500 || (x % 1000 == 500 && x / 1000 % 2 == 1)
    };
    if up {
        whole + 1
    } else {
        whole
    }
}

/// A temperature as it is shown.
pub open spec fn temperature_text(millicelsius: i32) -> Seq<char> {
    let t = shown_tenths(
        (if millicelsius < 0 {
            -millicelsius
        } else {
            millicelsius as int
        }) as nat,
    );
    (if millicelsius < 0 {
        "-"@
    } else {
        Seq::empty()
    }) + decimal_text(t / 10) + "."@ + decimal_text(t % 10) + " °C"@
}

/// Doubles a dividend until its quotient by one thousand has fifty-three
/// digits.
fn scale_up(x: u64) -> (r: u64)
    requires
        x <= 0x1_0000_0000,
    ensures
        r == scaled(x as nat),
{
    let mut v: u64 = x;
    while v != 0 && v < 4_503_599_627_370_496_000
        invariant
            v < 9_007_199_254_740_992_000,
            scaled(x as nat) == scaled(v as nat),
        decreases
                (if v < 4_503_599_627_370_496_000 {
                    4_503_599_627_370_496_000 - v
                } else {
                    0
                }),
    {
        v = v * 2;
    }
    v
}

/// A temperature as it is shown.
pub fn format_temperature(millicelsius: i32) -> (out: String)
    ensures
        out@ == temperature_text(millicelsius),
{
    let magnitude: u64 = if millicelsius < 0 {
        (-(millicelsius as i64)) as u64
    } else {
        millicelsius as u64
    };
    let whole: u64 = magnitude / 100;
    let rest: u64 = magnitude % 100;
    let x: u64 = scale_up(magnitude);
    let up = if rest != 50 {
        rest > 50
    } else if x % 1000 == 0 {
        whole % 2 == 1
    } else {
        x % 1000 > 500 || (x % 1000 == 500 && x / 1000 % 2 == 1)
    };
    let tenths: u64 = if up {
        whole + 1
    } else {
        whole
    };
    let sign = if millicelsius < 0 {
        "-".to_owned()
    } else {
        String::new()
    };
    assert(millicelsius >= 0 ==> sign@ =~= Seq::<char>::empty());
    let a = format_u64(tenths / 10);
    let b = format_u64(tenths % 10);
    cat5(sign.as_str(), a.as_str(), ".", b.as_str(), " °C")
}

/// Whether a thermal state says that no temperature is known.
pub open spec fn temperature_unknown(t: ThermalStatusView) -> bool {
    t.max_temperature_millicelsius == 0 && (t.state == "unavailable"@ || t.state == "stale"@
        || t.state.len() == 0)
}

/// The thermal state as it is shown in a language.
pub open spec fn thermal_shown(language: Language, t: ThermalStatusView) -> ShownThermal {
    let cap = translation(language, "safety cap active"@);
    let stale = translation(language, "sensor data stale"@);
    ShownThermal {
        state: protocol_value(language, t.state),
        temperature: if temperature_unknown(t) {
            translation(language, "Unavailable"@)
        } else {
            temperature_text(t.max_temperature_millicelsius)
        },
        detail: if t.cap_active && t.sensors_stale {
            cap + ", "@ + stale
        } else if t.cap_active {
            cap
        } else if t.sensors_stale {
            stale
        } else {
            translation(language, "Sensors healthy"@)
        },
    }
}

/// The thermal state as it is shown in a language.
pub fn thermal_view(language: Language, thermal: &ThermalStatus) -> (v: ThermalView)
    ensures
        v@ == thermal_shown(language, thermal@),
{
    let state = thermal.state.as_str();
    let unknown = thermal.max_temperature_millicelsius == 0 && (same(state, "unavailable") || same(
        state,
        "stale",
    ) || state.is_empty());
    let temperature = if unknown {
        translate(language, "Unavailable").to_owned()
    } else {
        format_temperature(thermal.max_temperature_millicelsius)
    };
    let cap = translate(language, "safety cap active");
    let stale = translate(language, "sensor data stale");
    let detail = if thermal.cap_active && thermal.sensors_stale {
        crate::text::cat3(cap, ", ", stale)
    } else if thermal.cap_active {
        cap.to_owned()
    } else if thermal.sensors_stale {
        stale.to_owned()
    } else {
        translate(language, "Sensors healthy").to_owned()
    };
    ThermalView { state: localized_protocol_value(language, state), temperature, detail }
}

/// The health of the daemon as it is shown in a language.
pub fn health_view(language: Language, health: &HealthStatus) -> (v: HealthView)
    ensures
        v.summary@ == protocol_value(language, health@.summary),
        seq_view(v.issues@) == health@.issues.map_values(|i: IssueView| issue_shown(language, i)),
{
    let all = &health.issues;
    let mut issues: Vec<HealthIssueView> = Vec::new();
    let mut k: usize = 0;
    while k < all.len()
        invariant
            k <= all@.len(),
            issues@.len() == k,
            forall|j: int|
                0 <= j < k ==> (#[trigger] issues@[j])@ == issue_shown(language, all@[j]@),
        decreases all@.len() - k,
    {
        let severity = localized_protocol_value(language, all[k].severity.as_str());
        let component = localized_protocol_value(language, all[k].component.as_str());
        let detail = cat5(
            severity.as_str(),
            " · ",
            component.as_str(),
            " · ",
            all[k].code.as_str(),
        );
        issues.push(
            HealthIssueView {
                message: translate_known(language, all[k].message.as_str()),
                detail,
            },
        );
        k = k + 1;
    }
    assert(seq_view(issues@) =~= health@.issues.map_values(
        |i: IssueView| issue_shown(language, i),
    ));
    HealthView { summary: localized_protocol_value(language, health.summary.as_str()), issues }
}

/// A mode as it is shown in a language.
pub fn mode_view(language: Language, mode: &ModeInfo, selected: &str) -> (v: ModeView)
    ensures
        v@ == mode_shown(language, mode@, selected@),
{
    ModeView {
        id: mode.id.as_str().to_owned(),
        label: localized_mode_label(language, mode.id.as_str(), mode.display_name.as_str()),
        description: localized_mode_description(
            language,
            mode.id.as_str(),
            mode.description.as_str(),
        ),
        selected: same(mode.id.as_str(), selected),
    }
}

/// The state of a target: the last of the first `n` that has its identifier.
pub open spec fn status_of(all: Seq<FrequencyStatusView>, id: Seq<char>, n: nat) -> Option<
    FrequencyStatusView,
>
    decreases n,
{
    if n == 0 {
        None
    } else if all[n - 1].target_id == id {
        Some(all[n - 1])
    } else {
        status_of(all, id, (n - 1) as nat)
    }
}

/// The state of a target.
fn find_status(all: &Vec<FrequencyStatus>, id: &str) -> (r: Option<FrequencyStatus>)
    ensures
        opt_view(r) == status_of(seq_view(all@), id@, all@.len()),
{
    let ghost v = seq_view(all@);
    let mut n: usize = all.len();
    while n > 0
        invariant
            n <= all@.len(),
            v == seq_view(all@),
            status_of(v, id@, all@.len()) == status_of(v, id@, n as nat),
        decreases n,
    {
        assert(v[n - 1] == all@[n - 1]@);
        if same(all[n - 1].target_id.as_str(), id) {
            return Some(all[n - 1].duplicate());
        }
        n = n - 1;
    }
    None
}

/// Whether a shown target is that of a capability.
pub open spec fn target_shown(
    s: ShownTarget,
    c: CapabilityView,
    all: Seq<FrequencyStatusView>,
) -> bool {
    &&& s.capability == c
    &&& s.status == status_of(all, c.id, all.len())
    &&& ascending(s.choices_hz)
    &&& s.choices_hz.to_set() == offered_choices(c)
}

impl ViewModel {
    /// What is shown of the daemon in a language. States and capabilities are
    /// joined by the identifiers of the targets.
    pub fn from_api(language: Language, capabilities: &Capabilities, status: &DaemonStatus) -> (v:
        Self)
        ensures
            v.daemon_state@ == protocol_value(language, status@.state),
            v.profile@ == protocol_value(language, status@.effective_profile),
            v.scene@ == protocol_value(language, status@.dominant_scene),
            v.health.summary@ == protocol_value(language, status@.health.summary),
            seq_view(v.health.issues@) == status@.health.issues.map_values(
                |i: IssueView| issue_shown(language, i),
            ),
            seq_view(v.modes@) == capabilities@.modes.map_values(
                |m: ModeInfoView| mode_shown(language, m, status@.mode),
            ),
            v.targets@.len() == capabilities@.targets.len(),
            forall|i: int|
                0 <= i < v.targets@.len() ==> target_shown(
                    (#[trigger] v.targets@[i])@,
                    capabilities@.targets[i],
                    status@.frequencies,
                ),
            opt_view(v.thermal) == (if capabilities@.features.contains(THERMAL_GUARD@)
                || status@.thermal.state.len() > 0 {
                Some(thermal_shown(language, status@.thermal))
            } else {
                None
            }),
            match v.workload {
                Some(w) => (capabilities@.features.contains(ACTIVE_WORKLOAD@)
                    || status@.active_workload.present) && w.active@ == status@.active_workload,
                None => !capabilities@.features.contains(ACTIVE_WORKLOAD@)
                    && !status@.active_workload.present,
            },
    {
        let mut modes: Vec<ModeView> = Vec::new();
        let mut i: usize = 0;
        while i < capabilities.modes.len()
            invariant
                i <= capabilities.modes@.len(),
                modes@.len() == i,
                forall|k: int|
                    0 <= k < i ==> (#[trigger] modes@[k])@ == mode_shown(
                        language,
                        capabilities.modes@[k]@,
                        status@.mode,
                    ),
            decreases capabilities.modes@.len() - i,
        {
            modes.push(mode_view(language, &capabilities.modes[i], status.mode.as_str()));
            i = i + 1;
        }
        assert(seq_view(modes@) =~= capabilities@.modes.map_values(
            |m: ModeInfoView| mode_shown(language, m, status@.mode),
        ));
        let mut targets: Vec<TargetView> = Vec::new();
        let mut t: usize = 0;
        assert(status@.frequencies.len() == status.frequencies@.len());
        while t < capabilities.targets.len()
            invariant
                t <= capabilities.targets@.len(),
                targets@.len() == t,
                status@.frequencies == seq_view(status.frequencies@),
                status@.frequencies.len() == status.frequencies@.len(),
                forall|k: int|
                    0 <= k < t ==> target_shown(
                        (#[trigger] targets@[k])@,
                        capabilities.targets@[k]@,
                        status@.frequencies,
                    ),
            decreases capabilities.targets@.len() - t,
        {
            let capability = &capabilities.targets[t];
            targets.push(
                TargetView {
                    capability: capability.duplicate(),
                    status: find_status(&status.frequencies, capability.id.as_str()),
                    choices_hz: frequency_choices(capability),
                },
            );
            t = t + 1;
        }
        let thermal = if capabilities.supports(THERMAL_GUARD)
            || !status.thermal.state.as_str().is_empty() {
            Some(thermal_view(language, &status.thermal))
        } else {
            None
        };
        let workload = if capabilities.supports(ACTIVE_WORKLOAD) || status.active_workload.present {
            Some(WorkloadView { active: status.active_workload.duplicate() })
        } else {
            None
        };
        ViewModel {
            daemon_state: localized_protocol_value(language, status.state.as_str()),
            health: health_view(language, &status.health),
            profile: localized_protocol_value(language, status.effective_profile.as_str()),
            scene: localized_protocol_value(language, status.dominant_scene.as_str()),
            modes,
            targets,
            thermal,
            workload,
        }
    }
}

/// Every finding of the daemon is shown, in its order, however healthy the
/// daemon is.
pub proof fn findings_are_all_shown(language: Language, issues: Seq<IssueView>, i: int)
    requires
        0 <= i < issues.len(),
    ensures
        issues.map_values(|x: IssueView| issue_shown(language, x)).len() == issues.len(),
        issues.map_values(|x: IssueView| issue_shown(language, x))[i] == issue_shown(
            language,
            issues[i],
        ),
{
}

/// A window of two choices in ascending order can be asked for, where the
/// target allows it and lists its limits among its operating points.
pub proof fn choices_can_be_asked_for(t: CapabilityView, low: u64, high: u64)
    requires
        t.can_override,
        offered_choices(t).contains(low),
        offered_choices(t).contains(high),
        low <= high,
        t.available_hz.len() > 0 ==> t.available_hz.contains(t.minimum_hz)
            && t.available_hz.contains(t.maximum_hz),
    ensures
        override_fault(t, low, high) is None,
{
}

} // verus!
