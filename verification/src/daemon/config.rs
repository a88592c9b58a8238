//! The resolved configuration that the state owner works from.

use vstd::prelude::*;
use crate::api::{Capabilities, CapabilitiesView};
use crate::model::{seq_view, FrequencyLimits, ProfileId, ThermalState};
use crate::order::{sort_numbers, sorted_numbers};
use crate::paths::{path_view, same_path};
use crate::table::{texts_ascending, Table};
use crate::text::{opt_text, texts};
use super::rules::{AppRuleConfig, RuleView};

verus! {

/// How long scene hints last, in milliseconds; zero means until withdrawn.
#[derive(Clone, Copy, Debug, PartialEq, Eq, Structural)]
pub struct InputPolicy {
    pub trigger_duration_ms: u64,
    pub gesture_duration_ms: u64,
    pub switch_duration_ms: u64,
    pub wake_duration_ms: u64,
}

/// The parts of the policy that the state owner reads.
#[derive(Clone, Copy, Debug, PartialEq, Eq, Structural)]
pub struct Policy {
    pub default_profile: ProfileId,
    pub load_enabled: bool,
    pub load_sample_interval_ms: u64,
    pub thermal_sample_interval_ms: u64,
    pub input: InputPolicy,
    pub scheduler_enabled: bool,
    pub has_cgroup_classes: bool,
}

/// The automatic frequency policy of a target.
#[derive(Clone, Copy, Debug, PartialEq, Eq, Structural)]
pub struct AutomaticPolicy {
    pub efficient_cap: u64,
    pub reference: u64,
}

/// The kernel files of a target.
#[derive(Debug)]
pub struct TargetPaths {
    pub minimum: String,
    pub maximum: String,
    pub current: String,
    pub hertz_per_unit: u64,
}

/// A frequency domain with its safety caps.
#[derive(Debug)]
pub struct ResolvedTarget {
    pub hardware_limits: FrequencyLimits,
    pub available_frequencies: Vec<u64>,
    pub automatic_policy: Option<AutomaticPolicy>,
    pub critical_cap: u64,
    pub sensor_failure_cap: u64,
    pub paths: TargetPaths,
}

/// The view of [`ResolvedTarget`].
pub struct TargetModel {
    pub hardware_limits: FrequencyLimits,
    pub available_frequencies: Seq<u64>,
    pub automatic_policy: Option<AutomaticPolicy>,
    pub critical_cap: u64,
    pub sensor_failure_cap: u64,
    pub minimum_path: Seq<char>,
    pub maximum_path: Seq<char>,
    pub current_path: Seq<char>,
    pub hertz_per_unit: u64,
}

impl View for ResolvedTarget {
    type V = TargetModel;

    open spec fn view(&self) -> TargetModel {
        TargetModel {
            hardware_limits: self.hardware_limits,
            available_frequencies: self.available_frequencies@,
            automatic_policy: self.automatic_policy,
            critical_cap: self.critical_cap,
            sensor_failure_cap: self.sensor_failure_cap,
            minimum_path: self.paths.minimum@,
            maximum_path: self.paths.maximum@,
            current_path: self.paths.current@,
            hertz_per_unit: self.paths.hertz_per_unit,
        }
    }
}

/// The middle operating point: the upper median of the advertised frequencies,
/// or the middle of the window where none is advertised.
pub open spec fn middle_point(target: TargetModel) -> u64 {
    let l = target.hardware_limits;
    let s = target.available_frequencies;
    if s.len() == 0 {
        if l.min + l.max > u64::MAX {
            u64::MAX / 2
        } else {
            ((l.min + l.max) / 2) as u64
        }
    } else {
        sorted_numbers(s)[s.len() as int / 2]
    }
}

/// The middle operating point of a target.
pub fn middle_opp(target: &ResolvedTarget) -> (r: u64)
    ensures
        r == middle_point(target@),
{
    if target.available_frequencies.len() == 0 {
        return target.hardware_limits.min.saturating_add(target.hardware_limits.max) / 2;
    }
    let sorted = sort_numbers(&target.available_frequencies);
    sorted[sorted.len() / 2]
}

/// The upper frequency bound that a thermal verdict puts on a target.
pub open spec fn thermal_cap(target: TargetModel, state: ThermalState) -> Option<u64> {
    match state {
        ThermalState::Normal => None,
        ThermalState::Warning => match target.automatic_policy {
            Some(p) => Some(p.efficient_cap),
            None => None,
        },
        ThermalState::Throttled => match target.automatic_policy {
            Some(p) => Some(
                if p.reference <= p.efficient_cap {
                    p.reference
                } else {
                    p.efficient_cap
                },
            ),
            None => Some(middle_point(target)),
        },
        ThermalState::Critical => Some(target.critical_cap),
        ThermalState::Degraded => Some(target.sensor_failure_cap),
    }
}

/// The upper frequency bound that a thermal verdict puts on a target.
pub fn target_thermal_cap(target: &ResolvedTarget, state: ThermalState) -> (r: Option<u64>)
    ensures
        r == thermal_cap(target@, state),
{
    match state {
        ThermalState::Normal => None,
        ThermalState::Warning => match target.automatic_policy {
            Some(p) => Some(p.efficient_cap),
            None => None,
        },
        ThermalState::Throttled => match target.automatic_policy {
            Some(p) => Some(
                if p.reference <= p.efficient_cap {
                    p.reference
                } else {
                    p.efficient_cap
                },
            ),
            None => Some(middle_opp(target)),
        },
        ThermalState::Critical => Some(target.critical_cap),
        ThermalState::Degraded => Some(target.sensor_failure_cap),
    }
}

/// The thermal caps of all targets.
pub open spec fn thermal_cap_map(
    targets: Map<Seq<char>, TargetModel>,
    state: ThermalState,
) -> Map<Seq<char>, u64> {
    Map::new(
        |k: Seq<char>| targets.dom().contains(k) && thermal_cap(targets[k], state) is Some,
        |k: Seq<char>| thermal_cap(targets[k], state)->0,
    )
}

/// The thermal caps of all targets.
pub fn thermal_caps(targets: &Table<ResolvedTarget>, state: ThermalState) -> (caps: Table<u64>)
    ensures
        caps@ == thermal_cap_map(targets@, state),
{
    let mut caps: Table<u64> = Table::new();
    let n: usize = targets.len();
    let mut i: usize = 0;
    while i < n
        invariant
            i <= n,
            n == targets.keys().len(),
            texts_ascending(targets.keys()),
            forall|k: Seq<char>| #[trigger] targets@.dom().contains(k) <==> targets.keys().contains(k),
            forall|k: Seq<char>| #[trigger]
                caps@.dom().contains(k) <==> targets.keys().take(i as int).contains(k)
                    && thermal_cap(targets@[k], state) is Some,
            forall|k: Seq<char>| #[trigger]
                caps@.dom().contains(k) ==> caps@[k] == thermal_cap(targets@[k], state)->0,
        decreases n - i,
    {
        let ghost key = targets.keys()[i as int];
        let ghost prior = caps@;
        proof {
            let a = targets.keys().take(i as int);
            let b = targets.keys().take(i + 1);
            assert(b =~= a.push(key));
            assert forall|x: Seq<char>| #[trigger] b.contains(x) <==> (a.contains(x) || x == key) by {
                if a.contains(x) {
                    let j = choose|j: int| 0 <= j < a.len() && a[j] == x;
                    assert(b[j] == x);
                }
                if x == key {
                    assert(b[i as int] == x);
                }
            }
        }
        match target_thermal_cap(targets.value_at(i), state) {
            Some(cap) => {
                caps.insert(targets.key_at(i).to_owned(), cap);
            },
            None => {},
        }
        proof {
            assert forall|k: Seq<char>| #[trigger] caps@.dom().contains(k) <==> targets.keys().take(
                i + 1,
            ).contains(k) && thermal_cap(targets@[k], state) is Some by {
                assert(prior.dom().contains(k) <==> targets.keys().take(i as int).contains(k)
                    && thermal_cap(targets@[k], state) is Some);
            }
        }
        i = i + 1;
    }
    proof {
        assert(targets.keys().take(n as int) =~= targets.keys());
        assert(caps@ =~= thermal_cap_map(targets@, state));
    }
    caps
}

/// The tighter of two cap maps, key by key.
pub open spec fn tighter_caps(a: Map<Seq<char>, u64>, b: Map<Seq<char>, u64>) -> Map<
    Seq<char>,
    u64,
> {
    Map::new(
        |k: Seq<char>| a.dom().contains(k) || b.dom().contains(k),
        |k: Seq<char>|
            if !b.dom().contains(k) {
                a[k]
            } else if !a.dom().contains(k) || b[k] <= a[k] {
                b[k]
            } else {
                a[k]
            },
    )
}

/// The tighter of two cap tables, key by key.
pub fn merge_caps(administrator: &Table<u64>, thermal: &Table<u64>) -> (out: Table<u64>)
    ensures
        out@ == tighter_caps(administrator@, thermal@),
{
    let mut out = administrator.duplicate();
    let n: usize = thermal.len();
    let mut i: usize = 0;
    while i < n
        invariant
            i <= n,
            n == thermal.keys().len(),
            forall|k: Seq<char>| #[trigger] thermal@.dom().contains(k) <==> thermal.keys().contains(k),
            texts_ascending(thermal.keys()),
            forall|k: Seq<char>| #[trigger]
                out@.dom().contains(k) <==> administrator@.dom().contains(k)
                    || thermal.keys().take(i as int).contains(k),
            forall|k: Seq<char>| #[trigger]
                out@.dom().contains(k) ==> out@[k] == (if thermal.keys().take(i as int).contains(
                    k,
                ) {
                    tighter_caps(administrator@, thermal@)[k]
                } else {
                    administrator@[k]
                }),
        decreases n - i,
    {
        let key = thermal.key_at(i);
        let cap: u64 = *thermal.value_at(i);
        let ghost prior = out@;
        proof {
            let a = thermal.keys().take(i as int);
            let b = thermal.keys().take(i + 1);
            assert(b =~= a.push(key@));
            assert forall|x: Seq<char>| #[trigger] b.contains(x) <==> (a.contains(x) || x == key@) by {
                if a.contains(x) {
                    let j = choose|j: int| 0 <= j < a.len() && a[j] == x;
                    assert(b[j] == x);
                }
                if x == key@ {
                    assert(b[i as int] == x);
                }
            }
            if a.contains(key@) {
                let j = choose|j: int| 0 <= j < a.len() && a[j] == key@;
                assert(crate::order::text_lt(thermal.keys()[j], thermal.keys()[i as int]));
                crate::order::text_lt_irreflexive(key@);
            }
        }
        let tighter: u64 = match administrator.copied(key) {
            Some(old) => if cap <= old {
                cap
            } else {
                old
            },
            None => cap,
        };
        out.insert(key.to_owned(), tighter);
        proof {
            assert forall|k: Seq<char>| #[trigger] out@.dom().contains(k) implies out@[k] == (
            if thermal.keys().take(i + 1).contains(k) {
                tighter_caps(administrator@, thermal@)[k]
            } else {
                administrator@[k]
            }) by {
                if k != key@ {
                    assert(prior.dom().contains(k));
                    assert(out@[k] == prior[k]);
                }
            }
            assert forall|k: Seq<char>| #[trigger] out@.dom().contains(k) <==> administrator@.dom().contains(
                k,
            ) || thermal.keys().take(i + 1).contains(k) by {
                assert(prior.dom().contains(k) <==> administrator@.dom().contains(k)
                    || thermal.keys().take(i as int).contains(k));
            }
        }
        i = i + 1;
    }
    proof {
        assert(thermal.keys().take(n as int) =~= thermal.keys());
        assert(out@ =~= tighter_caps(administrator@, thermal@));
    }
    out
}

/// The merged caps never exceed either source.
pub proof fn merged_caps_respect_both(a: Map<Seq<char>, u64>, b: Map<Seq<char>, u64>, k: Seq<char>)
    ensures
        a.dom().contains(k) ==> tighter_caps(a, b).dom().contains(k) && tighter_caps(a, b)[k] <= a[k],
        b.dom().contains(k) ==> tighter_caps(a, b).dom().contains(k) && tighter_caps(a, b)[k] <= b[k],
        tighter_caps(a, b).dom().contains(k) ==> a.dom().contains(k) || b.dom().contains(k),
{
}

/// Whether some cap of `new` is below its value in `old`, or is new.
pub open spec fn tightens(old_caps: Map<Seq<char>, u64>, new_caps: Map<Seq<char>, u64>) -> bool {
    exists|k: Seq<char>| #[trigger]
        new_caps.dom().contains(k) && (!old_caps.dom().contains(k) || new_caps[k] < old_caps[k])
}

/// Whether some cap of `new_caps` is below its value in `old_caps`, or is new.
pub fn caps_tightened(old_caps: &Table<u64>, new_caps: &Table<u64>) -> (r: bool)
    ensures
        r == tightens(old_caps@, new_caps@),
{
    let n: usize = new_caps.len();
    let mut i: usize = 0;
    while i < n
        invariant
            i <= n,
            n == new_caps.keys().len(),
            forall|k: Seq<char>| #[trigger] new_caps@.dom().contains(k) <==> new_caps.keys().contains(k),
            forall|j: int|
                0 <= j < i ==> old_caps@.dom().contains(#[trigger] new_caps.keys()[j])
                    && new_caps@[new_caps.keys()[j]] >= old_caps@[new_caps.keys()[j]],
        decreases n - i,
    {
        let key = new_caps.key_at(i);
        match old_caps.copied(key) {
            Some(old_cap) => {
                if *new_caps.value_at(i) < old_cap {
                    assert(new_caps@.dom().contains(key@));
                    return true;
                }
            },
            None => {
                assert(new_caps@.dom().contains(key@));
                return true;
            },
        }
        i = i + 1;
    }
    proof {
        if tightens(old_caps@, new_caps@) {
            let k = choose|k: Seq<char>| #[trigger]
                new_caps@.dom().contains(k) && (!old_caps@.dom().contains(k) || new_caps@[k]
                    < old_caps@[k]);
            let j = choose|j: int| 0 <= j < new_caps.keys().len() && new_caps.keys()[j] == k;
            assert(old_caps@.dom().contains(new_caps.keys()[j]));
        }
    }
    false
}

/// A trusted thermal sensor.
#[derive(Debug)]
pub struct ThermalZone {
    pub id: String,
    pub zone_type: String,
    pub sysfs_path: Option<String>,
    pub stale_after_ms: u64,
}

/// The view of [`ThermalZone`].
pub struct ZoneView {
    pub id: Seq<char>,
    pub zone_type: Seq<char>,
    pub sysfs_path: Option<Seq<char>>,
    pub stale_after_ms: u64,
}

impl View for ThermalZone {
    type V = ZoneView;

    open spec fn view(&self) -> ZoneView {
        ZoneView {
            id: self.id@,
            zone_type: self.zone_type@,
            sysfs_path: opt_text(self.sysfs_path),
            stale_after_ms: self.stale_after_ms,
        }
    }
}

/// One resolved configuration generation.
#[derive(Debug)]
pub struct ResolvedConfiguration {
    pub policy: Policy,
    pub targets: Table<ResolvedTarget>,
    pub thermal_zones: Vec<ThermalZone>,
    pub administrator_caps: Table<u64>,
    pub warnings: Vec<String>,
    pub apps: Vec<AppRuleConfig>,
    pub capabilities: Capabilities,
}

/// The mathematical model of [`ResolvedConfiguration`].
pub struct ConfigModel {
    pub policy: Policy,
    pub targets: Map<Seq<char>, TargetModel>,
    pub zones: Seq<ZoneView>,
    pub administrator_caps: Map<Seq<char>, u64>,
    pub warnings: Seq<Seq<char>>,
    pub apps: Seq<RuleView>,
    pub capabilities: CapabilitiesView,
}

impl View for ResolvedConfiguration {
    type V = ConfigModel;

    open spec fn view(&self) -> ConfigModel {
        ConfigModel {
            policy: self.policy,
            targets: self.targets@,
            zones: seq_view(self.thermal_zones@),
            administrator_caps: self.administrator_caps@,
            warnings: texts(self.warnings@),
            apps: seq_view(self.apps@),
            capabilities: self.capabilities@,
        }
    }
}

/// Whether two targets are written through the same files in the same unit. Paths
/// are compared by their components.
pub open spec fn same_files(a: TargetModel, b: TargetModel) -> bool {
    &&& path_view(a.minimum_path) == path_view(b.minimum_path)
    &&& path_view(a.maximum_path) == path_view(b.maximum_path)
    &&& a.hertz_per_unit == b.hertz_per_unit
}

/// Where two configurations address the same kernel files through the same
/// targets.
pub open spec fn same_mapping(
    a: Map<Seq<char>, TargetModel>,
    b: Map<Seq<char>, TargetModel>,
) -> bool {
    &&& a.dom() == b.dom()
    &&& forall|k: Seq<char>| #[trigger]
        a.dom().contains(k) ==> same_files(a[k], b[k])
}

/// Whether every target of `a` has its counterpart in `b`.
fn mapping_within(a: &Table<ResolvedTarget>, b: &Table<ResolvedTarget>) -> (r: bool)
    ensures
        r == forall|k: Seq<char>| #[trigger]
            a@.dom().contains(k) ==> b@.dom().contains(k) && same_files(a@[k], b@[k]),
{
    let n: usize = a.len();
    let mut i: usize = 0;
    while i < n
        invariant
            i <= n,
            n == a.keys().len(),
            forall|k: Seq<char>| #[trigger] a@.dom().contains(k) <==> a.keys().contains(k),
            forall|j: int|
                #![trigger a.keys()[j]]
                0 <= j < i ==> {
                    let k = a.keys()[j];
                    b@.dom().contains(k) && same_files(a@[k], b@[k])
                },
        decreases n - i,
    {
        let key = a.key_at(i);
        let x = a.value_at(i);
        match b.get(key) {
            Some(y) => {
                if !same_path(x.paths.minimum.as_str(), y.paths.minimum.as_str()) || !same_path(
                    x.paths.maximum.as_str(),
                    y.paths.maximum.as_str(),
                ) || x.paths.hertz_per_unit != y.paths.hertz_per_unit {
                    assert(a@.dom().contains(key@));
                    return false;
                }
            },
            None => {
                assert(a@.dom().contains(key@));
                return false;
            },
        }
        i = i + 1;
    }
    assert forall|k: Seq<char>| #[trigger] a@.dom().contains(k) implies b@.dom().contains(k)
        && same_files(a@[k], b@[k]) by {
        let j = choose|j: int| 0 <= j < a.keys().len() && a.keys()[j] == k;
        assert(b@.dom().contains(a.keys()[j]));
    }
    true
}

/// Whether two configurations have the same target signature.
pub fn same_target_signature(a: &ResolvedConfiguration, b: &ResolvedConfiguration) -> (r: bool)
    ensures
        r == same_mapping(a.targets@, b.targets@),
{
    let r = mapping_within(&a.targets, &b.targets) && mapping_within(&b.targets, &a.targets);
    proof {
        if r {
            assert(a.targets@.dom() =~= b.targets@.dom());
        }
    }
    r
}

/// Observer cadences and input policy of one configuration generation.
#[derive(Debug)]
pub struct ObserverSettings {
    pub generation: u64,
    pub load_interval_ms: u64,
    pub thermal_interval_ms: u64,
    pub thermal_paths: Vec<String>,
    pub input: InputPolicy,
}

/// The view of [`ObserverSettings`].
pub struct SettingsView {
    pub generation: u64,
    pub load_interval_ms: u64,
    pub thermal_interval_ms: u64,
    pub thermal_paths: Seq<Seq<char>>,
    pub input: InputPolicy,
}

impl View for ObserverSettings {
    type V = SettingsView;

    open spec fn view(&self) -> SettingsView {
        SettingsView {
            generation: self.generation,
            load_interval_ms: self.load_interval_ms,
            thermal_interval_ms: self.thermal_interval_ms,
            thermal_paths: texts(self.thermal_paths@),
            input: self.input,
        }
    }
}

/// The sysfs paths of the zones that have one, in order.
pub open spec fn zone_paths(zones: Seq<ZoneView>) -> Seq<Seq<char>>
    decreases zones.len(),
{
    if zones.len() == 0 {
        Seq::empty()
    } else {
        let before = zone_paths(zones.drop_last());
        match zones.last().sysfs_path {
            Some(p) => before.push(p),
            None => before,
        }
    }
}

/// The observer settings of a configuration.
pub open spec fn settings_view(configuration: ConfigModel, generation: u64) -> SettingsView {
    SettingsView {
        generation,
        load_interval_ms: configuration.policy.load_sample_interval_ms,
        thermal_interval_ms: configuration.policy.thermal_sample_interval_ms,
        thermal_paths: zone_paths(configuration.zones),
        input: configuration.policy.input,
    }
}

impl ObserverSettings {
    /// The observer settings of a configuration.
    pub fn from_configuration(configuration: &ResolvedConfiguration, generation: u64) -> (out: Self)
        ensures
            out@ == settings_view(configuration@, generation),
    {
        let mut paths: Vec<String> = Vec::new();
        let ghost zones = configuration@.zones;
        let mut i: usize = 0;
        assert(zones.take(0) =~= Seq::empty());
        assert(texts(paths@) =~= Seq::empty());
        while i < configuration.thermal_zones.len()
            invariant
                i <= configuration.thermal_zones@.len(),
                zones == seq_view(configuration.thermal_zones@),
                texts(paths@) == zone_paths(zones.take(i as int)),
            decreases configuration.thermal_zones@.len() - i,
        {
            assert(zones.take(i + 1).drop_last() =~= zones.take(i as int));
            assert(zones.take(i + 1).last() == zones[i as int]);
            match &configuration.thermal_zones[i].sysfs_path {
                Some(p) => {
                    let ghost prior = paths@;
                    paths.push(p.clone());
                    assert(texts(paths@) =~= texts(prior).push(p@));
                },
                None => {},
            }
            i = i + 1;
        }
        assert(zones.take(i as int) =~= zones);
        ObserverSettings {
            generation,
            load_interval_ms: configuration.policy.load_sample_interval_ms,
            thermal_interval_ms: configuration.policy.thermal_sample_interval_ms,
            thermal_paths: paths,
            input: configuration.policy.input,
        }
    }
}

} // verus!
