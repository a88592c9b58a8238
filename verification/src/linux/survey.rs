//! The survey of a device: what each kind of hardware adds to a discovery, and
//! the discovery as a whole.

use vstd::prelude::*;
use crate::model::{seq_view, SensorHealth, ThermalReading};
use crate::number::{parse_i64, parsed_i64};
use crate::paths::{components, path_view, Component, ComponentView};
use crate::platform::{
    malformed, PlatformError, PlatformErrorView, PlatformResult, ThermalSample,
};
use crate::table::Table;
use crate::text::{cat3, cat4, opt_text, texts};
use super::devices::DevfreqCandidate;
use super::discovery::{
    device_id, device_ids_are_valid_and_new, device_ids_begin_with_d, devfreq_of, devfreq_paths,
    discover_cpu_policies, only_policies, parse_devfreq, policies_add_policies, policies_found,
    DevfreqCapability, DevfreqFiles, DevfreqView, DeviceCapabilities, FrequencyTargetPaths,
    Gathered, InputDeviceCapability, InputView, LinuxDiscovery, PolicyFiles, PolicyView,
    TargetPathsView, ThermalZoneCapability, ZoneView, MAX_PLAUSIBLE_TEMPERATURE,
    MIN_PLAUSIBLE_TEMPERATURE,
};
use super::formats::{
    has_type_b_multitouch_axes, nul_separated, nul_terminated, nul_terminated_string, nul_texts,
    type_b_axes,
};

verus! {

/// What the first `n` devices add: the devices and the identifiers taken, or
/// the failure of two devices that would share their files.
pub open spec fn devices_found(
    start: Gathered<DevfreqView>,
    all: Seq<(DevfreqCandidate, DevfreqFiles)>,
    n: nat,
) -> Result<(Gathered<DevfreqView>, Seq<Seq<char>>), PlatformErrorView>
    decreases n,
{
    if n == 0 {
        Ok((start, Seq::empty()))
    } else {
        match devices_found(start, all, (n - 1) as nat) {
            Err(e) => Err(e),
            Ok((g, used)) => {
                let c = all[n - 1].0@;
                match devfreq_of(c, all[n - 1].1, (n - 1) as nat, used) {
                    Ok(d) => if g.targets.dom().contains(d.id) {
                        Err(
                            malformed(
                                d.id,
                                "duplicate devfreq target ID would overwrite a mutation path"@,
                            ),
                        )
                    } else {
                        Ok(
                            (
                                Gathered {
                                    found: g.found.push(d),
                                    targets: g.targets.insert(
                                        d.id,
                                        devfreq_paths(c.logical_base, d.id),
                                    ),
                                    ..g
                                },
                                used.push(d.id),
                            ),
                        )
                    },
                    Err(e) => Ok(
                        (
                            Gathered {
                                warnings: g.warnings.push(
                                    "skipping devfreq "@ + c.entry_name + ": "@ + e.text(),
                                ),
                                ..g
                            },
                            used,
                        ),
                    ),
                }
            },
        }
    }
}

proof fn devices_error_stands(
    start: Gathered<DevfreqView>,
    all: Seq<(DevfreqCandidate, DevfreqFiles)>,
    n: nat,
    k: nat,
)
    requires
        n <= k,
        devices_found(start, all, n) is Err,
    ensures
        devices_found(start, all, k) == devices_found(start, all, n),
    decreases k,
{
    if n < k {
        devices_error_stands(start, all, n, (k - 1) as nat);
    }
}

/// Gathers the devices with their own frequency control.
pub fn discover_devfreq(
    devices: Vec<(DevfreqCandidate, DevfreqFiles)>,
    targets: &mut Table<FrequencyTargetPaths>,
    warnings: &mut Vec<String>,
) -> (r: PlatformResult<Vec<DevfreqCapability>>)
    ensures
        ({
            let start = Gathered::<DevfreqView> {
                found: Seq::empty(),
                targets: old(targets)@,
                warnings: texts(old(warnings)@),
            };
            let end = devices_found(start, devices@, devices@.len());
            match r {
                Ok(out) => end is Ok && end->Ok_0.0 == (Gathered {
                    found: seq_view(out@),
                    targets: final(targets)@,
                    warnings: texts(final(warnings)@),
                }),
                Err(e) => end is Err && end->Err_0 == e@,
            }
        }),
{
    let ghost all = devices@;
    let ghost start = Gathered::<DevfreqView> {
        found: Seq::empty(),
        targets: targets@,
        warnings: texts(warnings@),
    };
    let mut left = devices;
    let mut out: Vec<DevfreqCapability> = Vec::new();
    let mut used: Vec<String> = Vec::new();
    let mut index: usize = 0;
    let count: usize = left.len();
    assert(left@ =~= all.skip(0));
    assert(seq_view(out@) =~= Seq::empty());
    assert(texts(used@) =~= Seq::empty());
    while left.len() > 0
        invariant
            index <= count,
            count == all.len(),
            all == devices@,
            left@ == all.skip(index as int),
            start == (Gathered::<DevfreqView> {
                found: Seq::empty(),
                targets: old(targets)@,
                warnings: texts(old(warnings)@),
            }),
            devices_found(start, all, index as nat) == Ok::<
                (Gathered<DevfreqView>, Seq<Seq<char>>),
                PlatformErrorView,
            >(
                (
                    Gathered {
                        found: seq_view(out@),
                        targets: targets@,
                        warnings: texts(warnings@),
                    },
                    texts(used@),
                ),
            ),
        decreases left@.len(),
    {
        let (candidate, files) = left.remove(0);
        assert((candidate, files) == all[index as int]);
        match parse_devfreq(&candidate, files, index, &mut used) {
            Ok((capability, paths)) => {
                if targets.contains(capability.id.as_str()) {
                    proof {
                        devices_error_stands(start, all, (index + 1) as nat, all.len());
                    }
                    return Err(
                        PlatformError::invalid(
                            capability.id.as_str(),
                            "duplicate devfreq target ID would overwrite a mutation path",
                        ),
                    );
                }
                let key = capability.id.as_str().to_owned();
                targets.insert(key, paths);
                let ghost prior = seq_view(out@);
                let ghost added = capability@;
                out.push(capability);
                assert(seq_view(out@) =~= prior.push(added));
            },
            Err(e) => {
                let why = e.message();
                let ghost prior = texts(warnings@);
                let message = cat4(
                    "skipping devfreq ",
                    candidate.entry_name.as_str(),
                    ": ",
                    why.as_str(),
                );
                let ghost added = message@;
                warnings.push(message);
                assert(texts(warnings@) =~= prior.push(added));
            },
        }
        index = index + 1;
        assert(left@ =~= all.skip(index as int));
    }
    Ok(out)
}

/// The last name of a path, or a stand-in where it has none.
pub open spec fn zone_name(path: Seq<char>) -> Seq<char> {
    let c = path_view(path);
    if c.len() == 0 {
        "unknown"@
    } else {
        match c.last() {
            ComponentView::Normal(s) => s,
            _ => "unknown"@,
        }
    }
}

/// A temperature that is believed.
pub open spec fn believed(text: Option<Seq<char>>) -> Option<i64> {
    match text {
        Some(s) => match parsed_i64(s) {
            Some(t) => if MIN_PLAUSIBLE_TEMPERATURE <= t <= MAX_PLAUSIBLE_TEMPERATURE {
                Some(t as i64)
            } else {
                None
            },
            None => None,
        },
        None => None,
    }
}

/// The reading that a temperature file gives.
pub open spec fn zone_reading(text: Option<Seq<char>>, now: u64) -> ThermalReading {
    ThermalReading {
        temperature: believed(text),
        sampled_at: now,
        health: if believed(text) is Some {
            SensorHealth::Healthy
        } else {
            SensorHealth::Unavailable
        },
    }
}

/// The sample that the files of a thermal zone give. A zone without a believed
/// temperature is unavailable.
pub fn read_thermal_sample(
    base: &str,
    zone_type: Option<String>,
    temperature: Option<String>,
    now: u64,
) -> (s: ThermalSample)
    ensures
        s.zone_id@ == zone_name(base@),
        s.zone_type@ == (match zone_type {
            Some(t) => t@,
            None => "unknown"@,
        }),
        s.path@ == base@,
        s.reading == zone_reading(opt_text(temperature), now),
{
    let c = components(base);
    assert(path_view(base@).len() == c@.len());
    let zone_id = if c.len() == 0 {
        "unknown".to_owned()
    } else {
        assert(path_view(base@).last() == c@[c@.len() - 1]@);
        match &c[c.len() - 1] {
            Component::Normal(s) => s.as_str().to_owned(),
            _ => "unknown".to_owned(),
        }
    };
    let zone_type = match zone_type {
        Some(t) => t,
        None => "unknown".to_owned(),
    };
    let temperature: Option<i64> = match &temperature {
        Some(s) => match parse_i64(s.as_str()) {
            Some(t) => if MIN_PLAUSIBLE_TEMPERATURE <= t && t <= MAX_PLAUSIBLE_TEMPERATURE {
                Some(t)
            } else {
                None
            },
            None => None,
        },
        None => None,
    };
    let health = if temperature.is_some() {
        SensorHealth::Healthy
    } else {
        SensorHealth::Unavailable
    };
    ThermalSample {
        zone_id,
        zone_type,
        path: base.to_owned(),
        reading: ThermalReading { temperature, sampled_at: now, health },
    }
}

/// What the thermal zones of a survey give.
pub struct Zones {
    pub zones: Seq<ZoneView>,
    pub paths: Map<Seq<char>, Seq<char>>,
    pub warnings: Seq<Seq<char>>,
}

/// What the first `n` thermal zones give.
pub open spec fn zones_found(warnings: Seq<Seq<char>>, all: Seq<ThermalSample>, n: nat) -> Zones
    decreases n,
{
    if n == 0 {
        Zones { zones: Seq::empty(), paths: Map::empty(), warnings }
    } else {
        let z = zones_found(warnings, all, (n - 1) as nat);
        let s = all[n - 1];
        Zones {
            zones: z.zones.push(
                ZoneView { id: s.zone_id@, zone_type: s.zone_type@, current: Some(s.reading) },
            ),
            paths: z.paths.insert(s.zone_id@, s.path@),
            warnings: if s.reading.health == SensorHealth::Healthy {
                z.warnings
            } else {
                z.warnings.push("thermal zone "@ + s.zone_id@ + " has no valid temperature"@)
            },
        }
    }
}

/// Gathers the thermal zones.
pub fn discover_thermal(samples: Vec<ThermalSample>, warnings: &mut Vec<String>) -> (r: (
    Vec<ThermalZoneCapability>,
    Table<String>,
))
    ensures
        (Zones {
            zones: seq_view(r.0@),
            paths: r.1@,
            warnings: texts(final(warnings)@),
        }) == zones_found(texts(old(warnings)@), samples@, samples@.len()),
{
    let ghost all = samples@;
    let ghost start = texts(warnings@);
    let mut left = samples;
    let mut zones: Vec<ThermalZoneCapability> = Vec::new();
    let mut paths: Table<String> = Table::new();
    let mut n: Ghost<nat> = Ghost(0nat);
    assert(left@ =~= all.skip(0));
    assert(seq_view(zones@) =~= Seq::empty());
    while left.len() > 0
        invariant
            n@ <= all.len(),
            left@ == all.skip(n@ as int),
            (Zones { zones: seq_view(zones@), paths: paths@, warnings: texts(warnings@) })
                == zones_found(start, all, n@),
        decreases left@.len(),
    {
        let s = left.remove(0);
        assert(s == all[n@ as int]);
        if s.reading.health != SensorHealth::Healthy {
            let ghost prior = texts(warnings@);
            let message = cat3("thermal zone ", s.zone_id.as_str(), " has no valid temperature");
            let ghost added = message@;
            warnings.push(message);
            assert(texts(warnings@) =~= prior.push(added));
        }
        let key = s.zone_id.as_str().to_owned();
        paths.insert(key, s.path);
        let ghost prior = seq_view(zones@);
        let zone = ThermalZoneCapability {
            id: s.zone_id,
            zone_type: s.zone_type,
            current: Some(s.reading),
        };
        let ghost added = zone@;
        zones.push(zone);
        assert(seq_view(zones@) =~= prior.push(added));
        n = Ghost(n@ + 1);
        assert(left@ =~= all.skip(n@ as int));
    }
    (zones, paths)
}

/// What was read of the files of an input device.
#[derive(Debug)]
pub struct InputFiles {
    pub event: String,
    pub name: Option<String>,
    pub axes: Option<String>,
}

/// What the first `n` input devices give: the devices and the warnings.
pub open spec fn inputs_found(warnings: Seq<Seq<char>>, all: Seq<InputFiles>, n: nat) -> (
    Seq<InputView>,
    Seq<Seq<char>>,
)
    decreases n,
{
    if n == 0 {
        (Seq::empty(), warnings)
    } else {
        let (found, w) = inputs_found(warnings, all, (n - 1) as nat);
        let f = all[n - 1];
        match f.name {
            None => (found, w.push("input "@ + f.event@ + " has no readable name"@)),
            Some(name) => (
                found.push(
                    InputView {
                        id: f.event@,
                        name: name@,
                        multi_touch: match f.axes {
                            Some(mask) => type_b_axes(mask@),
                            None => false,
                        },
                    },
                ),
                w,
            ),
        }
    }
}

/// Gathers the input devices.
pub fn discover_input(devices: Vec<InputFiles>, warnings: &mut Vec<String>) -> (out: Vec<
    InputDeviceCapability,
>)
    ensures
        (seq_view(out@), texts(final(warnings)@)) == inputs_found(
            texts(old(warnings)@),
            devices@,
            devices@.len(),
        ),
{
    let ghost all = devices@;
    let ghost start = texts(warnings@);
    let mut left = devices;
    let mut out: Vec<InputDeviceCapability> = Vec::new();
    let mut n: Ghost<nat> = Ghost(0nat);
    assert(left@ =~= all.skip(0));
    assert(seq_view(out@) =~= Seq::empty());
    while left.len() > 0
        invariant
            n@ <= all.len(),
            left@ == all.skip(n@ as int),
            (seq_view(out@), texts(warnings@)) == inputs_found(start, all, n@),
        decreases left@.len(),
    {
        let f = left.remove(0);
        assert(f == all[n@ as int]);
        let InputFiles { event, name, axes } = f;
        match name {
            None => {
                let ghost prior = texts(warnings@);
                let message = cat3("input ", event.as_str(), " has no readable name");
                let ghost added = message@;
                warnings.push(message);
                assert(texts(warnings@) =~= prior.push(added));
            },
            Some(name) => {
                let multi_touch = match &axes {
                    Some(mask) => has_type_b_multitouch_axes(mask.as_str()),
                    None => false,
                };
                let ghost prior = seq_view(out@);
                let device = InputDeviceCapability { id: event, name, multi_touch };
                let ghost added = device@;
                out.push(device);
                assert(seq_view(out@) =~= prior.push(added));
            },
        }
        n = Ghost(n@ + 1);
        assert(left@ =~= all.skip(n@ as int));
    }
    out
}

/// The name of a board and what it is compatible with.
pub fn device_identity(model: Option<Vec<u8>>, compatible: Option<Vec<u8>>) -> (r: (
    Option<String>,
    Vec<String>,
))
    ensures
        opt_text(r.0) == (match model {
            Some(bytes) => nul_terminated(bytes@),
            None => None,
        }),
        texts(r.1@) == (match compatible {
            Some(bytes) => nul_texts(bytes@),
            None => Seq::empty(),
        }),
{
    let name = match &model {
        Some(bytes) => nul_terminated_string(bytes.as_slice()),
        None => None,
    };
    let names: Vec<String> = match &compatible {
        Some(bytes) => nul_separated(bytes.as_slice()),
        None => Vec::new(),
    };
    assert(compatible is None ==> texts(names@) =~= Seq::empty());
    (name, names)
}

/// A discovery that holds only the board's identity.
pub fn discover_device_identity(model: Option<Vec<u8>>, compatible: Option<Vec<u8>>) -> (d:
    LinuxDiscovery)
    ensures
        opt_text(d.capabilities.device_name) == (match model {
            Some(bytes) => nul_terminated(bytes@),
            None => None,
        }),
        texts(d.capabilities.compatible@) == (match compatible {
            Some(bytes) => nul_texts(bytes@),
            None => Seq::empty(),
        }),
        d.capabilities.cpu_policies@.len() == 0,
        d.capabilities.devfreq_targets@.len() == 0,
        d.capabilities.thermal_zones@.len() == 0,
        d.capabilities.input_devices@.len() == 0,
        d.frequency_targets@ == Map::<Seq<char>, TargetPathsView>::empty(),
        d.thermal_zone_paths@ == Map::<Seq<char>, Seq<char>>::empty(),
        d.warnings@.len() == 0,
{
    let (device_name, compatible) = device_identity(model, compatible);
    LinuxDiscovery {
        capabilities: DeviceCapabilities {
            device_name,
            compatible,
            cpu_policies: Vec::new(),
            devfreq_targets: Vec::new(),
            thermal_zones: Vec::new(),
            input_devices: Vec::new(),
        },
        frequency_targets: Table::new(),
        thermal_zone_paths: Table::new(),
        warnings: Vec::new(),
    }
}

/// What was read of the frequency targets: the directory of the CPU policies
/// below `/sys`, their files, the devices, and the warnings of the search for
/// devices.
#[derive(Debug)]
pub struct TargetFiles {
    pub cpufreq: String,
    pub policies: Vec<(String, PolicyFiles)>,
    pub devices: Vec<(DevfreqCandidate, DevfreqFiles)>,
    pub warnings: Vec<String>,
}

/// What the CPU policies give.
pub open spec fn policies_of(files: TargetFiles) -> Gathered<PolicyView> {
    policies_found(
        files.cpufreq@,
        Gathered { found: Seq::empty(), targets: Map::empty(), warnings: Seq::empty() },
        files.policies@,
        files.policies@.len(),
    )
}

/// What the devices give behind the CPU policies.
pub open spec fn devices_of(files: TargetFiles) -> Result<
    (Gathered<DevfreqView>, Seq<Seq<char>>),
    PlatformErrorView,
> {
    let p = policies_of(files);
    devices_found(
        Gathered {
            found: Seq::empty(),
            targets: p.targets,
            warnings: p.warnings + texts(files.warnings@),
        },
        files.devices@,
        files.devices@.len(),
    )
}

/// A discovery of the board's identity and its frequency targets: all that the
/// recovery after a crash needs.
pub fn discover_recovery_targets(
    model: Option<Vec<u8>>,
    compatible: Option<Vec<u8>>,
    files: TargetFiles,
) -> (r: PlatformResult<LinuxDiscovery>)
    ensures
        match r {
            Ok(d) => {
                &&& devices_of(files) is Ok
                &&& seq_view(d.capabilities.cpu_policies@) == policies_of(files).found
                &&& (Gathered {
                    found: seq_view(d.capabilities.devfreq_targets@),
                    targets: d.frequency_targets@,
                    warnings: texts(d.warnings@),
                }) == devices_of(files)->Ok_0.0
                &&& opt_text(d.capabilities.device_name) == (match model {
                    Some(bytes) => nul_terminated(bytes@),
                    None => None,
                })
                &&& texts(d.capabilities.compatible@) == (match compatible {
                    Some(bytes) => nul_texts(bytes@),
                    None => Seq::empty(),
                })
                &&& d.capabilities.thermal_zones@.len() == 0
                &&& d.capabilities.input_devices@.len() == 0
                &&& d.thermal_zone_paths@ == Map::<Seq<char>, Seq<char>>::empty()
            },
            Err(e) => devices_of(files) is Err && devices_of(files)->Err_0 == e@,
        },
{
    let mut discovery = discover_device_identity(model, compatible);
    let ghost given = files;
    let TargetFiles { cpufreq, policies, devices, warnings: searched } = files;
    let mut targets: Table<FrequencyTargetPaths> = Table::new();
    let mut warnings: Vec<String> = Vec::new();
    assert(texts(warnings@) =~= Seq::empty());
    let cpu_policies = discover_cpu_policies(
        cpufreq.as_str(),
        policies,
        &mut targets,
        &mut warnings,
    );
    let ghost before = texts(warnings@);
    let mut searched = searched;
    warnings.append(&mut searched);
    assert(texts(warnings@) =~= before + texts(given.warnings@));
    match discover_devfreq(devices, &mut targets, &mut warnings) {
        Err(e) => Err(e),
        Ok(devfreq_targets) => {
            discovery.capabilities.cpu_policies = cpu_policies;
            discovery.capabilities.devfreq_targets = devfreq_targets;
            discovery.frequency_targets = targets;
            discovery.warnings = warnings;
            Ok(discovery)
        },
    }
}

/// The whole discovery: board, frequency targets, thermal zones and input
/// devices.
pub fn discover(
    model: Option<Vec<u8>>,
    compatible: Option<Vec<u8>>,
    files: TargetFiles,
    samples: Vec<ThermalSample>,
    inputs: Vec<InputFiles>,
) -> (r: PlatformResult<LinuxDiscovery>)
    ensures
        match r {
            Ok(d) => {
                &&& devices_of(files) is Ok
                &&& seq_view(d.capabilities.cpu_policies@) == policies_of(files).found
                &&& seq_view(d.capabilities.devfreq_targets@) == devices_of(files)->Ok_0.0.found
                &&& d.frequency_targets@ == devices_of(files)->Ok_0.0.targets
                &&& ({
                    let z = zones_found(
                        devices_of(files)->Ok_0.0.warnings,
                        samples@,
                        samples@.len(),
                    );
                    &&& seq_view(d.capabilities.thermal_zones@) == z.zones
                    &&& d.thermal_zone_paths@ == z.paths
                    &&& (seq_view(d.capabilities.input_devices@), texts(d.warnings@))
                        == inputs_found(z.warnings, inputs@, inputs@.len())
                })
                &&& opt_text(d.capabilities.device_name) == (match model {
                    Some(bytes) => nul_terminated(bytes@),
                    None => None,
                })
                &&& texts(d.capabilities.compatible@) == (match compatible {
                    Some(bytes) => nul_texts(bytes@),
                    None => Seq::empty(),
                })
            },
            Err(e) => devices_of(files) is Err && devices_of(files)->Err_0 == e@,
        },
{
    match discover_recovery_targets(model, compatible, files) {
        Err(e) => Err(e),
        Ok(found) => {
            let mut discovery = found;
            let mut warnings: Vec<String> = Vec::new();
            std::mem::swap(&mut warnings, &mut discovery.warnings);
            let (thermal_zones, paths) = discover_thermal(samples, &mut warnings);
            let input_devices = discover_input(inputs, &mut warnings);
            discovery.capabilities.thermal_zones = thermal_zones;
            discovery.thermal_zone_paths = paths;
            discovery.capabilities.input_devices = input_devices;
            discovery.warnings = warnings;
            Ok(discovery)
        },
    }
}

/// A thermal zone with an implausible temperature, or with none, is reported
/// as unavailable and never as healthy.
pub proof fn implausible_is_unavailable(text: Option<Seq<char>>, now: u64)
    ensures
        zone_reading(text, now).health == SensorHealth::Healthy <==> zone_reading(
            text,
            now,
        ).temperature is Some,
        zone_reading(text, now).temperature is Some ==> MIN_PLAUSIBLE_TEMPERATURE <= zone_reading(
            text,
            now,
        ).temperature->0 <= MAX_PLAUSIBLE_TEMPERATURE,
{
}

/// No two devices of a discovery share an identifier, and each has its files.
pub proof fn devices_have_their_own_files(
    start: Gathered<DevfreqView>,
    all: Seq<(DevfreqCandidate, DevfreqFiles)>,
    n: nat,
)
    requires
        start.found.len() == 0,
        n <= all.len(),
        devices_found(start, all, n) is Ok,
    ensures
        ({
            let g = devices_found(start, all, n)->Ok_0.0;
            &&& forall|i: int|
                0 <= i < g.found.len() ==> g.targets.dom().contains(#[trigger] g.found[i].id)
                    && g.targets[g.found[i].id].id == g.found[i].id
            &&& forall|i: int, j: int|
                0 <= i < j < g.found.len() ==> (#[trigger] g.found[i]).id != (
                #[trigger] g.found[j]).id
        }),
    decreases n,
{
    if n > 0 {
        devices_have_their_own_files(start, all, (n - 1) as nat);
        let h = devices_found(start, all, (n - 1) as nat)->Ok_0.0;
        let g = devices_found(start, all, n)->Ok_0.0;
        if g.found.len() > h.found.len() {
            assert(g.found.drop_last() =~= h.found);
            assert forall|i: int| 0 <= i < g.found.len() implies g.targets.dom().contains(
                #[trigger] g.found[i].id,
            ) && g.targets[g.found[i].id].id == g.found[i].id by {
                if i < h.found.len() {
                    assert(h.found[i] == g.found[i]);
                }
            }
            assert forall|i: int, j: int| 0 <= i < j < g.found.len() implies (
            #[trigger] g.found[i]).id != (#[trigger] g.found[j]).id by {
                assert(h.found[i] == g.found[i]);
                if j < h.found.len() {
                    assert(h.found[j] == g.found[j]);
                }
            }
        }
    }
}

/// What was read of the files of a thermal zone.
#[derive(Debug)]
pub struct ZoneFiles {
    pub path: String,
    pub zone_type: Option<String>,
    pub temperature: Option<String>,
}

/// Whether a sample is that of the files of a zone.
pub open spec fn samples_zone(s: ThermalSample, f: ZoneFiles, now: u64) -> bool {
    &&& s.zone_id@ == zone_name(f.path@)
    &&& s.zone_type@ == (match f.zone_type {
        Some(t) => t@,
        None => "unknown"@,
    })
    &&& s.path@ == f.path@
    &&& s.reading == zone_reading(opt_text(f.temperature), now)
}

/// The samples that the files of thermal zones give, in their order. A missing
/// or replaced zone gives an unavailable sample, so that the runtime learns of
/// it.
pub fn read_thermal_samples(zones: Vec<ZoneFiles>, now: u64) -> (out: Vec<ThermalSample>)
    ensures
        out@.len() == zones@.len(),
        forall|i: int|
            0 <= i < out@.len() ==> samples_zone(#[trigger] out@[i], zones@[i], now),
{
    let mut left = zones;
    let mut out: Vec<ThermalSample> = Vec::new();
    assert(left@ =~= zones@.skip(0));
    while left.len() > 0
        invariant
            out@.len() <= zones@.len(),
            left@ == zones@.skip(out@.len() as int),
            forall|i: int|
                0 <= i < out@.len() ==> samples_zone(#[trigger] out@[i], zones@[i], now),
        decreases left@.len(),
    {
        let f = left.remove(0);
        assert(f == zones@[out@.len() as int]);
        out.push(read_thermal_sample(f.path.as_str(), f.zone_type, f.temperature, now));
        assert(left@ =~= zones@.skip(out@.len() as int));
    }
    out
}

/// Whether each target is a CPU policy or a device whose identifier is taken.
pub open spec fn accounted(
    targets: Map<Seq<char>, TargetPathsView>,
    used: Seq<Seq<char>>,
) -> bool {
    forall|k: Seq<char>| #[trigger]
        targets.dom().contains(k) ==> (k.len() > 0 && k[0] == 'c') || used.contains(k)
}

/// No device ever takes over the files of a CPU policy or of another device, so
/// a survey never fails for that.
pub proof fn devices_never_collide(
    start: Gathered<DevfreqView>,
    all: Seq<(DevfreqCandidate, DevfreqFiles)>,
    n: nat,
)
    requires
        n <= all.len() <= u64::MAX,
        only_policies(start.targets),
    ensures
        devices_found(start, all, n) is Ok,
        accounted(
            devices_found(start, all, n)->Ok_0.0.targets,
            devices_found(start, all, n)->Ok_0.1,
        ),
    decreases n,
{
    if n > 0 {
        devices_never_collide(start, all, (n - 1) as nat);
        let (g, used) = devices_found(start, all, (n - 1) as nat)->Ok_0;
        let c = all[n - 1].0@;
        let index = (n - 1) as u64;
        device_ids_begin_with_d(c.entry_name, c.canonical_identity, index, used);
        device_ids_are_valid_and_new(c.entry_name, c.canonical_identity, index, used);
        let found = devfreq_of(c, all[n - 1].1, (n - 1) as nat, used);
        if let Ok(d) = found {
            assert(device_id(c.entry_name, c.canonical_identity, index as nat, used) == Some(d.id));
            assert(!g.targets.dom().contains(d.id));
            let after = used.push(d.id);
            assert(after[used.len() as int] == d.id);
            assert forall|k: Seq<char>| #[trigger]
                g.targets.insert(d.id, devfreq_paths(c.logical_base, d.id)).dom().contains(
                    k,
                ) implies (k.len() > 0 && k[0] == 'c') || after.contains(k) by {
                if used.contains(k) {
                    let i = choose|i: int| 0 <= i < used.len() && used[i] == k;
                    assert(after[i] == k);
                }
            }
        }
    }
}

/// A survey of files that were read always ends well: what makes no sense is
/// passed over with a warning.
pub proof fn surveys_end_well(files: TargetFiles)
    requires
        files.devices@.len() <= u64::MAX,
    ensures
        devices_of(files) is Ok,
{
    let start = Gathered::<PolicyView> {
        found: Seq::empty(),
        targets: Map::empty(),
        warnings: Seq::empty(),
    };
    policies_add_policies(files.cpufreq@, start, files.policies@, files.policies@.len());
    let p = policies_of(files);
    devices_never_collide(
        Gathered {
            found: Seq::empty(),
            targets: p.targets,
            warnings: p.warnings + texts(files.warnings@),
        },
        files.devices@,
        files.devices@.len(),
    );
}

} // verus!
