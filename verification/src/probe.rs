//! The capability probe: its arguments and the draft of a device configuration.

use vstd::prelude::*;
use crate::cpuset::CpuIds;
use crate::linux::discovery::{
    CpuPolicyCapability, DevfreqCapability, DevfreqView, DeviceCapabilities, PolicyView,
};
use crate::model::{seq_view, FrequencyLimits};
use crate::table::Table;
use crate::text::{cat2, cat3, copy_texts, opt_text, same, texts};

verus! {

/// A fixture directory: its text, or where it has none the position of the
/// argument that names it.
#[derive(Debug, PartialEq, Eq)]
pub enum FixtureRoot {
    Text(String),
    Argument(usize),
}

/// The view of [`FixtureRoot`].
pub enum FixtureRootView {
    Text(Seq<char>),
    Argument(nat),
}

impl View for FixtureRoot {
    type V = FixtureRootView;

    open spec fn view(&self) -> FixtureRootView {
        match self {
            FixtureRoot::Text(s) => FixtureRootView::Text(s@),
            FixtureRoot::Argument(n) => FixtureRootView::Argument(*n as nat),
        }
    }
}

/// The options of a probe.
#[derive(Debug, PartialEq, Eq)]
pub struct Arguments {
    pub pretty: bool,
    pub device_draft: bool,
    pub fixture_root: Option<FixtureRoot>,
    pub help: bool,
}

/// The view of [`Arguments`].
pub struct ArgumentsView {
    pub pretty: bool,
    pub device_draft: bool,
    pub fixture_root: Option<FixtureRootView>,
    pub help: bool,
}

impl View for Arguments {
    type V = ArgumentsView;

    open spec fn view(&self) -> ArgumentsView {
        ArgumentsView {
            pretty: self.pretty,
            device_draft: self.device_draft,
            fixture_root: match self.fixture_root {
                Some(r) => Some(r@),
                None => None,
            },
            help: self.help,
        }
    }
}

/// The options before any argument.
pub open spec fn no_arguments() -> ArgumentsView {
    ArgumentsView { pretty: true, device_draft: false, fixture_root: None, help: false }
}

/// The options that the arguments from `k` on give, or the complaint. An
/// argument is missing where it is no text.
pub open spec fn arguments_from(a: ArgumentsView, all: Seq<Option<String>>, k: int) -> Result<
    ArgumentsView,
    Seq<char>,
>
    decreases all.len() - k,
{
    if k < 0 || k >= all.len() {
        Ok(a)
    } else {
        match opt_text(all[k]) {
            None => Err("arguments must be valid UTF-8"@),
            Some(s) => if s == "--pretty"@ {
                arguments_from(ArgumentsView { pretty: true, ..a }, all, k + 1)
            } else if s == "--compact"@ {
                arguments_from(ArgumentsView { pretty: false, ..a }, all, k + 1)
            } else if s == "--device-draft"@ {
                arguments_from(ArgumentsView { device_draft: true, ..a }, all, k + 1)
            } else if s == "--root"@ {
                if k + 1 >= all.len() {
                    Err("--root requires a fixture directory"@)
                } else {
                    let root = match opt_text(all[k + 1]) {
                        Some(s) => FixtureRootView::Text(s),
                        None => FixtureRootView::Argument((k + 1) as nat),
                    };
                    arguments_from(ArgumentsView { fixture_root: Some(root), ..a }, all, k + 2)
                }
            } else if s == "--help"@ || s == "-h"@ {
                arguments_from(ArgumentsView { help: true, ..a }, all, k + 1)
            } else {
                Err("unknown argument `"@ + s + "`; use --help"@)
            },
        }
    }
}

impl Arguments {
    /// Reads the arguments of a probe.
    pub fn parse(arguments: &Vec<Option<String>>) -> (r: Result<Self, String>)
        ensures
            match r {
                Ok(a) => arguments_from(no_arguments(), arguments@, 0) == Ok::<
                    ArgumentsView,
                    Seq<char>,
                >(a@),
                Err(e) => arguments_from(no_arguments(), arguments@, 0) == Err::<
                    ArgumentsView,
                    Seq<char>,
                >(e@),
            },
    {
        let mut parsed = Arguments {
            pretty: true,
            device_draft: false,
            fixture_root: None,
            help: false,
        };
        let mut k: usize = 0;
        while k < arguments.len()
            invariant
                k <= arguments@.len(),
                arguments_from(no_arguments(), arguments@, 0) == arguments_from(
                    parsed@,
                    arguments@,
                    k as int,
                ),
            decreases arguments@.len() - k,
        {
            let argument = match &arguments[k] {
                None => {
                    return Err("arguments must be valid UTF-8".to_owned());
                },
                Some(s) => s.as_str(),
            };
            assert(opt_text(arguments@[k as int]) == Some(argument@));
            if same(argument, "--pretty") {
                parsed.pretty = true;
            } else if same(argument, "--compact") {
                parsed.pretty = false;
            } else if same(argument, "--device-draft") {
                parsed.device_draft = true;
            } else if same(argument, "--root") {
                k = k + 1;
                if k >= arguments.len() {
                    return Err("--root requires a fixture directory".to_owned());
                }
                let root = match &arguments[k] {
                    Some(s) => FixtureRoot::Text(s.as_str().to_owned()),
                    None => FixtureRoot::Argument(k),
                };
                parsed.fixture_root = Some(root);
            } else if same(argument, "--help") || same(argument, "-h") {
                parsed.help = true;
            } else {
                return Err(cat3("unknown argument `", argument, "`; use --help"));
            }
            k = k + 1;
        }
        Ok(parsed)
    }
}

/// How a configuration recognizes its device.
#[derive(Debug, PartialEq, Eq)]
pub struct DeviceMatch {
    pub compatible: Option<String>,
    pub product_name: Option<String>,
}

/// The configuration of a CPU frequency policy.
#[derive(Debug)]
pub struct CpuPolicyConfig {
    pub id: String,
    pub related_cpus: CpuIds,
    pub sysfs_path: Option<String>,
    pub floor_hz: u64,
    pub reference_hz: u64,
    pub efficient_cap_hz: u64,
    pub admin_cap_hz: Option<u64>,
    pub critical_cap_hz: Option<u64>,
    pub sensor_failure_cap_hz: Option<u64>,
}

/// The view of [`CpuPolicyConfig`].
pub struct PolicyConfigView {
    pub id: Seq<char>,
    pub related_cpus: Set<u32>,
    pub sysfs_path: Option<Seq<char>>,
    pub floor_hz: u64,
    pub reference_hz: u64,
    pub efficient_cap_hz: u64,
    pub admin_cap_hz: Option<u64>,
    pub critical_cap_hz: Option<u64>,
    pub sensor_failure_cap_hz: Option<u64>,
}

impl View for CpuPolicyConfig {
    type V = PolicyConfigView;

    open spec fn view(&self) -> PolicyConfigView {
        PolicyConfigView {
            id: self.id@,
            related_cpus: self.related_cpus@,
            sysfs_path: opt_text(self.sysfs_path),
            floor_hz: self.floor_hz,
            reference_hz: self.reference_hz,
            efficient_cap_hz: self.efficient_cap_hz,
            admin_cap_hz: self.admin_cap_hz,
            critical_cap_hz: self.critical_cap_hz,
            sensor_failure_cap_hz: self.sensor_failure_cap_hz,
        }
    }
}

/// The configuration of a device with its own frequency control.
#[derive(Debug)]
pub struct DevfreqTargetConfig {
    pub id: String,
    pub device_name: String,
    pub compatible: Vec<String>,
    pub sysfs_path: Option<String>,
    pub manual_only: bool,
    pub admin_cap_hz: Option<u64>,
    pub critical_cap_hz: Option<u64>,
    pub sensor_failure_cap_hz: Option<u64>,
}

/// The view of [`DevfreqTargetConfig`].
pub struct DevfreqConfigView {
    pub id: Seq<char>,
    pub device_name: Seq<char>,
    pub compatible: Seq<Seq<char>>,
    pub sysfs_path: Option<Seq<char>>,
    pub manual_only: bool,
    pub admin_cap_hz: Option<u64>,
    pub critical_cap_hz: Option<u64>,
    pub sensor_failure_cap_hz: Option<u64>,
}

impl View for DevfreqTargetConfig {
    type V = DevfreqConfigView;

    open spec fn view(&self) -> DevfreqConfigView {
        DevfreqConfigView {
            id: self.id@,
            device_name: self.device_name@,
            compatible: texts(self.compatible@),
            sysfs_path: opt_text(self.sysfs_path),
            manual_only: self.manual_only,
            admin_cap_hz: self.admin_cap_hz,
            critical_cap_hz: self.critical_cap_hz,
            sensor_failure_cap_hz: self.sensor_failure_cap_hz,
        }
    }
}

/// The configuration of a device. A draft trusts no thermal zone, so it cannot
/// be activated as it stands.
#[derive(Debug)]
pub struct DeviceConfig {
    pub schema_version: u32,
    pub device_id: String,
    pub device_match: Option<DeviceMatch>,
    pub cpu_groups: Table<CpuIds>,
    pub cpu_policies: Vec<CpuPolicyConfig>,
    pub devfreq_targets: Vec<DevfreqTargetConfig>,
    pub thermal_zones: Vec<String>,
}

/// The reference and the efficient frequency that a draft proposes: the middle
/// and the third quarter of the operating points, or without any a middle that
/// the kernel can represent and the upper limit.
pub open spec fn cpu_model(frequencies: Seq<u64>, limits: FrequencyLimits) -> (u64, u64) {
    if frequencies.len() == 0 {
        let span = if limits.max >= limits.min {
            limits.max - limits.min
        } else {
            0
        };
        let middle = limits.min + span / 2;
        let representable = middle / 1_000 * 1_000;
        (
            (if representable >= limits.min {
                representable
            } else {
                limits.min as int
            }) as u64,
            limits.max,
        )
    } else {
        let n = frequencies.len() as int;
        (frequencies[n / 2], frequencies[n * 3 / 4])
    }
}

/// The reference and the efficient frequency that a draft proposes.
pub fn draft_cpu_model(frequencies: &Vec<u64>, limits: FrequencyLimits) -> (r: (u64, u64))
    ensures
        r == cpu_model(frequencies@, limits),
{
    if frequencies.len() == 0 {
        let span: u64 = limits.max.saturating_sub(limits.min);
        let middle: u64 = limits.min.saturating_add(span / 2);
        let representable: u64 = middle / 1_000 * 1_000;
        let reference: u64 = if representable >= limits.min {
            representable
        } else {
            limits.min
        };
        return (reference, limits.max);
    }
    let n: usize = frequencies.len();
    let high: usize = n / 4 * 3 + n % 4 * 3 / 4;
    assert(high == n * 3 / 4);
    (frequencies[n / 2], frequencies[high])
}

/// The draft of a CPU frequency policy.
pub open spec fn policy_draft(p: PolicyView) -> PolicyConfigView {
    let (reference_hz, efficient_cap_hz) = cpu_model(p.available_frequencies, p.limits);
    PolicyConfigView {
        id: p.id,
        related_cpus: p.cpus,
        sysfs_path: None,
        floor_hz: p.limits.min,
        reference_hz,
        efficient_cap_hz,
        admin_cap_hz: Some(p.limits.max),
        critical_cap_hz: Some(p.limits.min),
        sensor_failure_cap_hz: Some(p.limits.min),
    }
}

/// The draft of a device with its own frequency control.
pub open spec fn device_target_draft(d: DevfreqView) -> DevfreqConfigView {
    DevfreqConfigView {
        id: d.id,
        device_name: d.device_name,
        compatible: d.compatible,
        sysfs_path: None,
        manual_only: true,
        admin_cap_hz: Some(d.limits.max),
        critical_cap_hz: Some(d.limits.min),
        sensor_failure_cap_hz: Some(d.limits.min),
    }
}

/// The drafts of the first `n` devices that list operating points.
pub open spec fn device_drafts(all: Seq<DevfreqView>, n: nat) -> Seq<DevfreqConfigView>
    decreases n,
{
    if n == 0 {
        Seq::empty()
    } else {
        let before = device_drafts(all, (n - 1) as nat);
        if all[n - 1].available_frequencies.len() == 0 {
            before
        } else {
            before.push(device_target_draft(all[n - 1]))
        }
    }
}

/// The CPUs of the first `n` policies.
pub open spec fn policy_union(all: Seq<PolicyView>, n: nat) -> Set<u32>
    decreases n,
{
    if n == 0 {
        Set::empty()
    } else {
        policy_union(all, (n - 1) as nat).union(all[n - 1].cpus)
    }
}

/// The CPU groups that a draft proposes.
pub open spec fn groups_draft(all: Seq<PolicyView>) -> Map<Seq<char>, Set<u32>> {
    let every = policy_union(all, all.len());
    let base = Map::<Seq<char>, Set<u32>>::empty().insert("all"@, every).insert(
        "balanced"@,
        every,
    );
    if all.len() == 0 {
        base
    } else {
        base.insert("efficient"@, all[0].cpus).insert("performance"@, all.last().cpus)
    }
}

fn draft_policies(all: &Vec<CpuPolicyCapability>) -> (out: Vec<CpuPolicyConfig>)
    ensures
        seq_view(out@) == seq_view(all@).map_values(|p: PolicyView| policy_draft(p)),
{
    let mut out: Vec<CpuPolicyConfig> = Vec::new();
    let mut i: usize = 0;
    while i < all.len()
        invariant
            i <= all@.len(),
            out@.len() == i,
            forall|k: int| 0 <= k < i ==> (#[trigger] out@[k])@ == policy_draft(all@[k]@),
        decreases all@.len() - i,
    {
        let policy = &all[i];
        let (reference_hz, efficient_cap_hz) = draft_cpu_model(
            &policy.available_frequencies,
            policy.limits,
        );
        out.push(
            CpuPolicyConfig {
                id: policy.id.as_str().to_owned(),
                related_cpus: policy.cpus.duplicate(),
                sysfs_path: None,
                floor_hz: policy.limits.min,
                reference_hz,
                efficient_cap_hz,
                admin_cap_hz: Some(policy.limits.max),
                critical_cap_hz: Some(policy.limits.min),
                sensor_failure_cap_hz: Some(policy.limits.min),
            },
        );
        i = i + 1;
    }
    assert(seq_view(out@) =~= seq_view(all@).map_values(|p: PolicyView| policy_draft(p)));
    out
}

fn draft_devices(all: &Vec<DevfreqCapability>) -> (out: Vec<DevfreqTargetConfig>)
    ensures
        seq_view(out@) == device_drafts(seq_view(all@), all@.len()),
{
    let ghost v = seq_view(all@);
    let mut out: Vec<DevfreqTargetConfig> = Vec::new();
    let mut i: usize = 0;
    assert(seq_view(out@) =~= Seq::empty());
    while i < all.len()
        invariant
            i <= all@.len(),
            v == seq_view(all@),
            seq_view(out@) == device_drafts(v, i as nat),
        decreases all@.len() - i,
    {
        assert(v[i as int] == all@[i as int]@);
        let device = &all[i];
        if device.available_frequencies.len() > 0 {
            let ghost before = seq_view(out@);
            let draft = DevfreqTargetConfig {
                id: device.id.as_str().to_owned(),
                device_name: device.device_name.as_str().to_owned(),
                compatible: copy_texts(&device.compatible),
                sysfs_path: None,
                manual_only: true,
                admin_cap_hz: Some(device.limits.max),
                critical_cap_hz: Some(device.limits.min),
                sensor_failure_cap_hz: Some(device.limits.min),
            };
            let ghost added = draft@;
            out.push(draft);
            assert(seq_view(out@) =~= before.push(added));
        }
        i = i + 1;
    }
    out
}

fn all_cpus(all: &Vec<CpuPolicyCapability>) -> (out: CpuIds)
    ensures
        out@ == policy_union(seq_view(all@), all@.len()),
{
    let ghost v = seq_view(all@);
    let mut out = CpuIds::new();
    let mut i: usize = 0;
    while i < all.len()
        invariant
            i <= all@.len(),
            v == seq_view(all@),
            out@ == policy_union(v, i as nat),
        decreases all@.len() - i,
    {
        assert(v[i as int] == all@[i as int]@);
        let ids = all[i].cpus.to_vec();
        let ghost before = out@;
        let mut k: usize = 0;
        assert(before.union(ids@.take(0).to_set()) =~= before);
        while k < ids.len()
            invariant
                k <= ids@.len(),
                out@ == before.union(ids@.take(k as int).to_set()),
            decreases ids@.len() - k,
        {
            out.insert(ids[k]);
            proof {
                let t = ids@.take(k as int);
                let u = ids@.take(k + 1);
                assert(u =~= t.push(ids@[k as int]));
                assert forall|x: u32| u.to_set().contains(x) <==> (t.to_set().contains(x) || x
                    == ids@[k as int]) by {
                    if t.contains(x) {
                        let m = choose|m: int| 0 <= m < t.len() && t[m] == x;
                        assert(u[m] == x);
                    }
                    assert(u[k as int] == ids@[k as int]);
                }
                assert(out@ =~= before.union(u.to_set()));
            }
            k = k + 1;
        }
        assert(ids@.take(ids@.len() as int) =~= ids@);
        i = i + 1;
    }
    out
}

/// A draft of the configuration of a device, for review by its administrator.
pub fn device_draft(capabilities: &DeviceCapabilities, schema_version: u32) -> (d: DeviceConfig)
    ensures
        d.schema_version == schema_version,
        d.device_id@ == (if capabilities.compatible@.len() == 0 {
            "draft-unidentified"@
        } else {
            "draft-"@ + capabilities.compatible@[0]@
        }),
        match d.device_match {
            Some(m) => if capabilities.compatible@.len() > 0 {
                opt_text(m.compatible) == Some(capabilities.compatible@[0]@)
                    && m.product_name is None
            } else {
                m.compatible is None && capabilities.device_name is Some && opt_text(
                    m.product_name,
                ) == opt_text(capabilities.device_name)
            },
            None => capabilities.compatible@.len() == 0 && capabilities.device_name is None,
        },
        d.cpu_groups@ == groups_draft(seq_view(capabilities.cpu_policies@)),
        seq_view(d.cpu_policies@) == seq_view(capabilities.cpu_policies@).map_values(
            |p: PolicyView| policy_draft(p),
        ),
        seq_view(d.devfreq_targets@) == device_drafts(
            seq_view(capabilities.devfreq_targets@),
            capabilities.devfreq_targets@.len(),
        ),
        d.thermal_zones@.len() == 0,
{
    let known = capabilities.compatible.len() > 0;
    let device_match = if known {
        Some(
            DeviceMatch {
                compatible: Some(capabilities.compatible[0].as_str().to_owned()),
                product_name: None,
            },
        )
    } else {
        match &capabilities.device_name {
            Some(name) => Some(
                DeviceMatch { compatible: None, product_name: Some(name.as_str().to_owned()) },
            ),
            None => None,
        }
    };
    let device_id = if known {
        cat2("draft-", capabilities.compatible[0].as_str())
    } else {
        "draft-unidentified".to_owned()
    };
    let ghost v = seq_view(capabilities.cpu_policies@);
    assert(v.len() == capabilities.cpu_policies@.len());
    let every = all_cpus(&capabilities.cpu_policies);
    let mut cpu_groups: Table<CpuIds> = Table::new();
    cpu_groups.insert("all".to_owned(), every.duplicate());
    cpu_groups.insert("balanced".to_owned(), every);
    let count: usize = capabilities.cpu_policies.len();
    if count > 0 {
        assert(v[0] == capabilities.cpu_policies@[0]@);
        assert(v.last() == capabilities.cpu_policies@[count - 1]@);
        cpu_groups.insert(
            "efficient".to_owned(),
            capabilities.cpu_policies[0].cpus.duplicate(),
        );
        cpu_groups.insert(
            "performance".to_owned(),
            capabilities.cpu_policies[count - 1].cpus.duplicate(),
        );
    }
    DeviceConfig {
        schema_version,
        device_id,
        device_match,
        cpu_groups,
        cpu_policies: draft_policies(&capabilities.cpu_policies),
        devfreq_targets: draft_devices(&capabilities.devfreq_targets),
        thermal_zones: Vec::new(),
    }
}

/// The draft where it was found valid, or why it is not given out.
pub fn checked_draft(draft: DeviceConfig, verdict: Result<(), String>) -> (r: Result<
    DeviceConfig,
    String,
>)
    ensures
        match verdict {
            Ok(()) => r == Ok::<DeviceConfig, String>(draft),
            Err(e) => r is Err && r->Err_0@ == "generated draft was invalid: "@ + e@,
        },
{
    match verdict {
        Ok(()) => Ok(draft),
        Err(e) => Err(cat2("generated draft was invalid: ", e.as_str())),
    }
}

/// A draft never goes outside the hardware: what it proposes for a policy lies
/// within the limits of the policy.
pub proof fn drafts_stay_within_the_hardware(frequencies: Seq<u64>, limits: FrequencyLimits)
    requires
        limits.min <= limits.max,
        forall|i: int|
            0 <= i < frequencies.len() ==> limits.min <= #[trigger] frequencies[i] <= limits.max,
    ensures
        limits.min <= cpu_model(frequencies, limits).0 <= limits.max,
        limits.min <= cpu_model(frequencies, limits).1 <= limits.max,
{
    if frequencies.len() > 0 {
        let n = frequencies.len() as int;
        assert(0 <= n / 2 < n && 0 <= n * 3 / 4 < n);
    }
}

/// A draft leaves a policy its whole window, and holds it at the bottom of it
/// when it is critically hot or its sensors fail.
pub proof fn a_policy_draft_is_safe(p: PolicyView)
    ensures
        policy_draft(p).id == p.id,
        policy_draft(p).related_cpus == p.cpus,
        policy_draft(p).floor_hz == p.limits.min,
        policy_draft(p).admin_cap_hz == Some(p.limits.max),
        policy_draft(p).critical_cap_hz == Some(p.limits.min),
        policy_draft(p).sensor_failure_cap_hz == Some(p.limits.min),
{
}

/// The draft frequencies of a policy stand at the middle and at three quarters
/// of its table. Without a table they are the middle of its window, in whole
/// kilohertz, and its top.
pub proof fn draft_frequencies_stand_in_the_table(frequencies: Seq<u64>, limits: FrequencyLimits)
    requires
        limits.min <= limits.max,
    ensures
        frequencies.len() > 0 ==> exists|i: int, j: int|
            {
                &&& 0 <= i <= j < frequencies.len()
                &&& cpu_model(frequencies, limits) == (
                    #[trigger] frequencies[i],
                    #[trigger] frequencies[j],
                )
                &&& 2 * i <= frequencies.len() < 2 * i + 2
                &&& 4 * j <= 3 * frequencies.len() < 4 * j + 4
            },
        frequencies.len() == 0 ==> {
            &&& cpu_model(frequencies, limits).1 == limits.max
            &&& 2 * cpu_model(frequencies, limits).0 <= limits.min + limits.max
            &&& 2 * cpu_model(frequencies, limits).0 > limits.min + limits.max - 2_002
        },
{
    if frequencies.len() > 0 {
        let n = frequencies.len() as int;
        assert(cpu_model(frequencies, limits) == (frequencies[n / 2], frequencies[n * 3 / 4]));
    }
}

/// A device is drafted exactly if it has frequencies to choose from, for manual
/// use and with its safe caps at the bottom of its window.
pub proof fn devices_with_a_table_are_drafted(all: Seq<DevfreqView>, n: nat, i: int)
    requires
        0 <= i < n <= all.len(),
        all[i].available_frequencies.len() > 0,
    ensures
        exists|k: int|
            0 <= k < device_drafts(all, n).len() && (#[trigger] device_drafts(all, n)[k]).id
                == all[i].id && device_drafts(all, n)[k].device_name == all[i].device_name
                && device_drafts(all, n)[k].compatible == all[i].compatible && device_drafts(
                all,
                n,
            )[k].manual_only && device_drafts(all, n)[k].admin_cap_hz == Some(all[i].limits.max)
                && device_drafts(all, n)[k].critical_cap_hz == Some(all[i].limits.min)
                && device_drafts(all, n)[k].sensor_failure_cap_hz == Some(all[i].limits.min),
    decreases n,
{
    let now = device_drafts(all, n);
    let before = device_drafts(all, (n - 1) as nat);
    if i < n - 1 {
        devices_with_a_table_are_drafted(all, (n - 1) as nat, i);
        let k = choose|k: int|
            0 <= k < before.len() && (#[trigger] before[k]).id == all[i].id
                && before[k].device_name == all[i].device_name && before[k].compatible
                == all[i].compatible && before[k].manual_only && before[k].admin_cap_hz == Some(
                all[i].limits.max,
            ) && before[k].critical_cap_hz == Some(all[i].limits.min)
                && before[k].sensor_failure_cap_hz == Some(all[i].limits.min);
        assert(now[k] == before[k]);
    } else {
        assert(now[before.len() as int].id == all[i].id);
    }
}

/// A device without frequencies to choose from is left out.
pub proof fn devices_without_a_table_are_left_out(all: Seq<DevfreqView>, n: nat, k: int)
    requires
        n <= all.len(),
        0 <= k < device_drafts(all, n).len(),
    ensures
        exists|i: int|
            0 <= i < n && (#[trigger] all[i]).available_frequencies.len() > 0 && device_drafts(
                all,
                n,
            )[k].id == all[i].id,
    decreases n,
{
    let before = device_drafts(all, (n - 1) as nat);
    if k < before.len() {
        devices_without_a_table_are_left_out(all, (n - 1) as nat, k);
    } else {
        assert(all[n - 1].available_frequencies.len() > 0);
    }
}

/// The drafted groups: all CPUs of all policies, those of the first policy as the
/// efficient ones and those of the last as the fast ones.
pub proof fn groups_follow_the_policies(all: Seq<PolicyView>, cpu: u32)
    requires
        all.len() > 0,
    ensures
        groups_draft(all)["all"@].contains(cpu) <==> exists|i: int|
            0 <= i < all.len() && (#[trigger] all[i]).cpus.contains(cpu),
        groups_draft(all)["balanced"@] == groups_draft(all)["all"@],
        groups_draft(all)["efficient"@] == all[0].cpus,
        groups_draft(all)["performance"@] == all[all.len() - 1].cpus,
{
    reveal_strlit("all");
    reveal_strlit("balanced");
    reveal_strlit("efficient");
    reveal_strlit("performance");
    assert("all"@.len() == 3 && "balanced"@.len() == 8 && "efficient"@.len() == 9
        && "performance"@.len() == 11);
    union_holds_every_policy(all, all.len(), cpu);
}

proof fn union_holds_every_policy(all: Seq<PolicyView>, n: nat, cpu: u32)
    requires
        n <= all.len(),
    ensures
        policy_union(all, n).contains(cpu) <==> exists|i: int|
            0 <= i < n && (#[trigger] all[i]).cpus.contains(cpu),
    decreases n,
{
    if n > 0 {
        union_holds_every_policy(all, (n - 1) as nat, cpu);
        if all[n - 1].cpus.contains(cpu) {
            assert(0 <= n - 1 < n);
        }
    }
}

} // verus!
