//! Rooted sysfs access, the survey of a device and the probe.

use uperf::linux::devices::{
    ClassEntry, ContainerEntry, DevfreqSearch, ScanStep, TreeEntry, MAX_DEVICE_SCAN_DEPTH,
};
use uperf::linux::discovery::DeviceCapabilities;
use uperf::linux::discovery::{DevfreqFiles, FrequencyTargetPaths, PolicyFiles};
use uperf::linux::environment::{
    actuator_paths, parse_os_release, read_optional_trimmed, read_system_info, unquote_os_release,
    LinuxEnvironment, SystemRoots,
};
use uperf::linux::procfs::parse_cpu_times;
use uperf::linux::survey::{
    discover, discover_device_identity, discover_recovery_targets, read_thermal_samples, InputFiles,
    TargetFiles, ZoneFiles,
};
use uperf::linux::sysfs::{checked_attribute, logical_relative, ReadStep, RootedSysfs};
use uperf::platform::{IoFailure, IoKind, PlatformError};
use uperf::probe::{checked_draft, device_draft, draft_cpu_model, Arguments, FixtureRoot};
use uperf::model::FrequencyLimits;

fn failure(kind: IoKind) -> IoFailure {
    IoFailure { kind, code: None, message: "no luck".to_owned() }
}

fn missing() -> PlatformError {
    PlatformError::Io {
        operation: "open for read",
        path: "x".to_owned(),
        source: failure(IoKind::NotFound),
    }
}

const POLICY0: &str = "/sys/devices/policy0/scaling_min_freq";

#[test]
fn read_trims_and_write_requires_exact_allowlist() {
    let read_only = RootedSysfs::read_only("sys", Ok("/fixture/sys".to_owned())).unwrap();
    assert_eq!(
        read_only.candidate(POLICY0).unwrap(),
        "/fixture/sys/devices/policy0/scaling_min_freq"
    );
    assert_eq!(checked_attribute(POLICY0, b"300000\n").unwrap(), "300000");
    let physical = || Ok("/fixture/sys/devices/policy0/scaling_min_freq".to_owned());
    assert!(matches!(
        read_only.authorize_write(POLICY0, "400000", physical()),
        Err(PlatformError::AccessDenied { .. })
    ));

    let writable = RootedSysfs::with_write_allowlist(
        "sys",
        Ok("/fixture/sys".to_owned()),
        vec![(POLICY0.to_owned(), physical())],
    )
    .unwrap();
    assert_eq!(
        writable.authorize_write(POLICY0, "400000", physical()).unwrap(),
        "/fixture/sys/devices/policy0/scaling_min_freq"
    );
    assert!(matches!(
        writable.authorize_write(
            "/sys/devices/policy1/scaling_min_freq",
            "400000",
            Ok("/fixture/sys/devices/policy1/scaling_min_freq".to_owned()),
        ),
        Err(PlatformError::AccessDenied { .. })
    ));
}

#[test]
fn rejects_paths_outside_logical_sysfs() {
    let adapter = RootedSysfs::read_only("sys", Ok("/fixture/sys".to_owned())).unwrap();
    assert!(matches!(
        adapter.resolve_read_path("/etc/passwd"),
        Err(PlatformError::AccessDenied { .. })
    ));
    assert!(matches!(
        adapter.resolve_read_path("/sys/../etc/passwd"),
        Err(PlatformError::AccessDenied { .. })
    ));
    assert_eq!(logical_relative("/sys").unwrap(), "");
    assert_eq!(logical_relative("/sys//a/./b/").unwrap(), "a/b");
    assert!(logical_relative("sys/a").is_err());
    assert!(logical_relative("/system").is_err());
}

#[test]
fn refreshes_a_cached_path_after_the_target_disappears() {
    let mut adapter = RootedSysfs::read_only("sys", Ok("/f/sys".to_owned())).unwrap();
    let logical = "/sys/class/cpufreq/policy/scaling_cur_freq";
    assert_eq!(
        adapter.resolve_read_path(logical).unwrap(),
        ReadStep::Canonicalize("/f/sys/class/cpufreq/policy/scaling_cur_freq".to_owned())
    );
    let first = "/f/sys/devices/policy0/scaling_cur_freq";
    adapter.remember_read_path(logical, Ok(first.to_owned())).unwrap();
    assert_eq!(adapter.resolve_read_path(logical).unwrap(), ReadStep::Open(first.to_owned()));

    let step = adapter.open_failed(logical, first, failure(IoKind::NotFound), false).unwrap();
    assert!(matches!(step, ReadStep::Canonicalize(_)));
    let second = "/f/sys/devices/policy1/scaling_cur_freq";
    assert_eq!(adapter.remember_read_path(logical, Ok(second.to_owned())).unwrap(), second);
    assert!(adapter.open_failed(logical, second, failure(IoKind::NotFound), true).is_err());
    assert!(adapter
        .open_failed(logical, second, failure(IoKind::PermissionDenied), false)
        .is_err());
}

#[test]
fn rejects_symlink_escape() {
    let adapter = RootedSysfs::read_only("sys", Ok("/f/sys".to_owned())).unwrap();
    assert!(matches!(
        adapter.resolve_existing("/sys/escape", Ok("/f/secret".to_owned())),
        Err(PlatformError::AccessDenied { .. })
    ));
    assert!(matches!(
        adapter.resolve_existing("/sys/escape", Ok("/f/sysfs/x".to_owned())),
        Err(PlatformError::AccessDenied { .. })
    ));
}

#[test]
fn attributes_and_values_are_bounded() {
    let adapter = RootedSysfs::read_only("sys", Ok("/f/sys".to_owned())).unwrap();
    let file = || Ok("/f/sys/a".to_owned());
    assert_eq!(
        adapter.authorize_write("/sys/a", &"1".repeat(4097), file()).unwrap_err().message(),
        "invalid data in /sys/a: write exceeds 4096 bytes"
    );
    assert_eq!(
        adapter.authorize_write("/sys/a", "1\0", file()).unwrap_err().message(),
        "invalid data in /sys/a: write contains a NUL byte"
    );
    assert_eq!(
        checked_attribute("/sys/a", &vec![b'1'; 65537]).unwrap_err().message(),
        "invalid data in /sys/a: attribute exceeds 65536 bytes"
    );
    assert_eq!(
        checked_attribute("/sys/a", &[0xff]).unwrap_err().message(),
        "invalid data in /sys/a: not UTF-8: invalid utf-8 sequence of 1 bytes from index 0"
    );
}

#[test]
fn parses_selected_os_release_fields() {
    assert_eq!(
        parse_os_release("ID=ubuntu\nPRETTY_NAME=\"Ubuntu 26.04\"\nX=ignored\n"),
        (Some("ubuntu".to_owned()), Some("Ubuntu 26.04".to_owned()))
    );
    assert_eq!(unquote_os_release("'a'"), "a");
    assert_eq!(unquote_os_release("\""), "\"");
}

#[test]
fn recovery_writer_uses_only_the_exact_manifest_allowlist() {
    let environment = LinuxEnvironment::new(
        SystemRoots::below("/f"),
        Ok("/f/sys".to_owned()),
        Ok("/f/proc".to_owned()),
        Ok("/f/etc".to_owned()),
    )
    .unwrap();
    assert_eq!(environment.roots().etc, "/f/etc");
    assert_eq!(environment.procfs(), "/f/proc");
    let minimum = "/sys/devices/test/min";
    let maximum = "/sys/devices/test/max";
    let physical = |name: &str| Ok(format!("/f/sys/devices/test/{name}"));
    let writer = environment
        .open_recovery_sysfs(
            Ok("/f/sys".to_owned()),
            vec![(minimum.to_owned(), physical("min"))],
        )
        .unwrap();
    assert_eq!(
        writer.authorize_write(minimum, "2000", physical("min")).unwrap(),
        "/f/sys/devices/test/min"
    );
    assert!(matches!(
        writer.authorize_write(maximum, "2500", physical("max")),
        Err(PlatformError::AccessDenied { .. })
    ));
    assert!(environment
        .sysfs()
        .authorize_write(minimum, "2000", physical("min"))
        .is_err());
}

#[test]
fn an_environment_needs_each_of_its_roots() {
    let open = |sys: bool, procfs: bool, etc: bool| {
        let root = |there: bool, path: &str| {
            if there {
                Ok(path.to_owned())
            } else {
                Err(failure(IoKind::NotFound))
            }
        };
        LinuxEnvironment::new(
            SystemRoots::below("/f"),
            root(sys, "/f/sys"),
            root(procfs, "/f/proc"),
            root(etc, "/f/etc"),
        )
    };
    assert!(open(true, true, true).is_ok());
    for (r, name, place) in [
        (open(false, true, true), "canonicalize sysfs root", "/f/sys"),
        (open(true, false, true), "canonicalize procfs root", "/f/proc"),
        (open(true, true, false), "canonicalize etc root", "/f/etc"),
    ] {
        match r {
            Err(PlatformError::Io { operation, path, .. }) => {
                assert_eq!(operation, name);
                assert_eq!(path, place);
            }
            _ => panic!("{name}: expected an I/O error"),
        }
    }
}

#[test]
fn actuator_writer_covers_both_ends_of_each_window() {
    let environment = LinuxEnvironment::host(
        Ok("/sys".to_owned()),
        Ok("/proc".to_owned()),
        Ok("/etc".to_owned()),
    )
    .unwrap();
    let targets = vec![FrequencyTargetPaths {
        id: "cpu.policy0".to_owned(),
        minimum: "/sys/a/min".to_owned(),
        maximum: "/sys/a/max".to_owned(),
        current: "/sys/a/cur".to_owned(),
        hertz_per_unit: 1_000,
    }];
    assert_eq!(actuator_paths(&targets), ["/sys/a/min", "/sys/a/max"]);
    let writer = environment
        .open_actuator_sysfs(
            Ok("/sys".to_owned()),
            &targets,
            vec![Ok("/sys/a/min".to_owned()), Ok("/sys/a/max".to_owned())],
        )
        .unwrap();
    assert!(writer.authorize_write("/sys/a/max", "1", Ok("/sys/a/max".to_owned())).is_ok());
    assert!(writer.authorize_write("/sys/a/cur", "1", Ok("/sys/a/cur".to_owned())).is_err());
}

fn policy(cpus: &str, minimum: &str, maximum: &str, available: Option<&str>) -> PolicyFiles {
    PolicyFiles {
        related_cpus: Ok(cpus.to_owned()),
        affected_cpus: Err(missing()),
        minimum: Ok(minimum.to_owned()),
        maximum: Ok(maximum.to_owned()),
        available: available.map(str::to_owned),
        time_in_state: None,
        governor: Some("schedutil".to_owned()),
    }
}

fn devfreq(
    name: &str,
    minimum: &str,
    maximum: &str,
    available: Option<&str>,
    compatible: Option<&str>,
) -> DevfreqFiles {
    DevfreqFiles {
        minimum: Ok(minimum.to_owned()),
        maximum: Ok(maximum.to_owned()),
        available_frequencies: available.map(str::to_owned),
        available_freqs: None,
        governor: None,
        name: Some(name.to_owned()),
        compatible: compatible.map(str::to_owned),
    }
}

#[test]
fn discovers_sparse_cpu_policies_dynamic_opps_and_device_identity() {
    let many_opps = (0..40)
        .map(|index| (300_000 + index * 40_000).to_string())
        .collect::<Vec<_>>()
        .join(" ");
    let mut search = DevfreqSearch::new("/f/sys".to_owned());
    search.class_directory(
        "/f/sys/class/devfreq",
        Ok(vec![ClassEntry::Named {
            name: "3d00000.gpu".to_owned(),
            canonical: Ok("/f/sys/class/devfreq/3d00000.gpu".to_owned()),
        }]),
    );
    let (mut candidates, search_warnings) = search.finish();
    let gpu = candidates.remove(0);
    let files = TargetFiles {
        cpufreq: "devices/system/cpu/cpufreq".to_owned(),
        policies: vec![
            ("policy0".to_owned(), policy("0 2", "300000", "2000000", Some(&many_opps))),
            ("policy7".to_owned(), policy("7 128", "500000", "3000000", None)),
        ],
        devices: vec![(
            gpu,
            devfreq(
                "kgsl-3d0",
                "295000000",
                "500000000",
                Some("220000000 295000000 680000000"),
                None,
            ),
        )],
        warnings: search_warnings,
    };
    let samples = read_thermal_samples(
        vec![ZoneFiles {
            path: "/sys/class/thermal/thermal_zone3".to_owned(),
            zone_type: Some("soc".to_owned()),
            temperature: Some("42500".to_owned()),
        }],
        7,
    );
    let inputs = vec![InputFiles {
        event: "event3".to_owned(),
        name: Some("NVTCapacitiveTouchScreen".to_owned()),
        axes: Some("260800000000000".to_owned()),
    }];
    let discovery = discover(
        Some(b"Vendor test SoC\0".to_vec()),
        Some(b"vendor,test-soc\0vendor,test-board\0".to_vec()),
        files,
        samples,
        inputs,
    )
    .unwrap();

    assert_eq!(discovery.capabilities.device_name.as_deref(), Some("Vendor test SoC"));
    assert_eq!(discovery.capabilities.compatible, ["vendor,test-soc", "vendor,test-board"]);
    assert_eq!(discovery.capabilities.cpu_policies.len(), 2);
    assert_eq!(discovery.capabilities.cpu_policies[0].cpus.to_vec(), [0, 2]);
    assert!(discovery.capabilities.cpu_policies[0].available_frequencies.len() > 32);
    assert!(
        discovery.capabilities.cpu_policies[1].available_frequencies.is_empty(),
        "a missing OPP table represents a continuous range"
    );
    assert_eq!(discovery.capabilities.cpu_policies[0].limits.min, 300_000_000);
    assert_eq!(discovery.capabilities.devfreq_targets.len(), 1);
    assert_eq!(discovery.capabilities.devfreq_targets[0].limits.min, 220_000_000);
    assert_eq!(discovery.capabilities.devfreq_targets[0].limits.max, 680_000_000);
    assert_eq!(discovery.capabilities.thermal_zones.len(), 1);
    assert!(discovery.capabilities.input_devices[0].multi_touch);
    assert_eq!(
        discovery.frequency_targets.get("cpu.policy0").unwrap().maximum,
        "/sys/devices/system/cpu/cpufreq/policy0/scaling_max_freq"
    );

    let environment = LinuxEnvironment::new(
        SystemRoots::below("/f"),
        Ok("/f/sys".to_owned()),
        Ok("/f/proc".to_owned()),
        Ok("/f/etc".to_owned()),
    )
    .unwrap();
    let stat = "cpu 100 0 20 400 0 0 0 0\ncpu0 50 0 10 200 0 0 0 0\ncpu7 50 0 10 200 0 0 0 0\n";
    let system = read_system_info(
        environment.roots(),
        "aarch64".to_owned(),
        Ok("7.1-test\n".to_owned()),
        Err(failure(IoKind::PermissionDenied)),
        Ok("ID=ubuntu\nPRETTY_NAME=\"Ubuntu Test\"\n".to_owned()),
    );
    let thermal = read_thermal_samples(
        vec![ZoneFiles {
            path: "/sys/class/thermal/thermal_zone3".to_owned(),
            zone_type: Some("soc".to_owned()),
            temperature: Some("42500".to_owned()),
        }],
        8,
    );
    let report = environment
        .probe(Ok(discovery), parse_cpu_times("/f/proc/stat", stat, 8), Ok(thermal), system)
        .unwrap();
    assert_eq!(report.cpu_times.cpus.len(), 2);
    assert_eq!(report.thermal[0].reading.temperature.unwrap(), 42_500);
    assert!(report.warnings.is_empty());
    assert_eq!(report.system.os_pretty_name.as_deref(), Some("Ubuntu Test"));
    assert_eq!(report.system.boot_id, None);

    assert!(environment
        .sysfs()
        .authorize_write(
            "/sys/devices/system/cpu/cpufreq/policy0/scaling_min_freq",
            "400000",
            Ok("/f/sys/devices/system/cpu/cpufreq/policy0/scaling_min_freq".to_owned()),
        )
        .is_err());
}

fn directory(name: &str, parent: &str) -> TreeEntry {
    TreeEntry { name: name.to_owned(), path: format!("{parent}/{name}"), directory: true }
}

#[test]
fn discovers_devices_tree_devfreq_when_class_is_absent() {
    let soc = "/f/sys/devices/platform/soc@0";
    let mut search = DevfreqSearch::new("/f/sys".to_owned());
    search.class_directory("/f/sys/class/devfreq", Err(failure(IoKind::NotFound)));
    search.listed("/f/sys/devices", 0, Ok(vec![directory("platform", "/f/sys/devices")]));
    loop {
        match search.step() {
            ScanStep::Done => break,
            ScanStep::Again => {}
            ScanStep::List { path, depth } => {
                let entries = if path.ends_with("/platform") {
                    vec![directory("soc@0", "/f/sys/devices/platform")]
                } else if path.ends_with("/soc@0") {
                    vec![directory("3d00000.gpu", soc), directory("1d84000.ufshc", soc)]
                } else {
                    vec![directory("devfreq", &path)]
                };
                search.listed(&path, depth, Ok(entries));
            }
            ScanStep::ListContainer { path } => {
                let name = path.rsplit('/').nth(1).unwrap().to_owned();
                let canonical = Ok(format!("{path}/{name}"));
                search.container_listed(Ok(vec![ContainerEntry {
                    name: Some(name),
                    followed: true,
                    canonical,
                }]));
            }
        }
    }
    let (candidates, warnings) = search.finish();
    assert!(warnings.is_empty());
    assert_eq!(
        candidates.iter().map(|c| c.entry_name.as_str()).collect::<Vec<_>>(),
        ["1d84000.ufshc", "3d00000.gpu"]
    );
    let devices = candidates
        .into_iter()
        .map(|c| {
            let files = if c.entry_name == "3d00000.gpu" {
                devfreq(
                    "kgsl-3d0",
                    "220000000",
                    "680000000",
                    Some("220000000 680000000"),
                    Some("qcom,adreno\0qcom,adreno-gpu\0"),
                )
            } else {
                devfreq("ufs-clk", "100000000", "400000000", None, Some("vendor,test-ufshc\0"))
            };
            (c, files)
        })
        .collect::<Vec<_>>();
    let discovery = discover_recovery_targets(
        None,
        None,
        TargetFiles {
            cpufreq: "class/cpufreq".to_owned(),
            policies: Vec::new(),
            devices,
            warnings: Vec::new(),
        },
    )
    .unwrap();
    assert_eq!(discovery.capabilities.devfreq_targets.len(), 2);
    assert_eq!(
        discovery
            .capabilities
            .devfreq_targets
            .iter()
            .map(|target| target.device_name.as_str())
            .collect::<Vec<_>>(),
        ["ufs-clk", "kgsl-3d0"]
    );
    assert_eq!(discovery.capabilities.devfreq_targets[0].compatible, ["vendor,test-ufshc"]);
    assert_eq!(
        discovery.capabilities.devfreq_targets[1].compatible,
        ["qcom,adreno", "qcom,adreno-gpu"]
    );
    for id in ["devfreq.1d84000.ufshc", "devfreq.3d00000.gpu"] {
        let paths = discovery.frequency_targets.get(id).unwrap();
        assert!(paths.minimum.starts_with("/sys/devices/"));
    }
}

#[test]
fn reports_compatible_values_without_a_chip_registry() {
    let discovery = discover_device_identity(
        None,
        Some(b"vendor,next-soc-gpu\0vendor,next-soc\0vendor,test-board\0".to_vec()),
    );
    assert_eq!(
        discovery.capabilities.compatible,
        ["vendor,next-soc-gpu", "vendor,next-soc", "vendor,test-board"]
    );
}

#[test]
fn class_entries_outside_sysfs_are_ignored_with_a_warning() {
    let mut search = DevfreqSearch::new("/f/sys".to_owned());
    search.class_directory(
        "/f/sys/class/devfreq",
        Ok(vec![
            ClassEntry::Unnamed,
            ClassEntry::Unreadable(failure(IoKind::Other)),
            ClassEntry::Named { name: "a".to_owned(), canonical: Ok("/f/other".to_owned()) },
            ClassEntry::Named { name: "b".to_owned(), canonical: Err(failure(IoKind::Other)) },
            ClassEntry::Named { name: "d".to_owned(), canonical: Ok("/f/sys/x".to_owned()) },
            ClassEntry::Named { name: "c".to_owned(), canonical: Ok("/f/sys/x".to_owned()) },
        ]),
    );
    let (candidates, warnings) = search.finish();
    assert_eq!(candidates.len(), 1);
    assert_eq!(candidates[0].logical_base, "/sys/class/devfreq/d");
    assert_eq!(
        warnings,
        [
            "ignoring devfreq target with a non-UTF-8 name",
            "cannot read devfreq class entry: no luck",
            "ignoring devfreq a: target escapes /sys",
            "ignoring devfreq b: cannot canonicalize: no luck",
        ]
    );
}

#[test]
fn the_walk_does_not_go_below_its_depth() {
    let mut search = DevfreqSearch::new("/f/sys".to_owned());
    search.listed("/d", MAX_DEVICE_SCAN_DEPTH, Ok(vec![directory("deep", "/d")]));
    assert_eq!(search.step(), ScanStep::Again);
    assert_eq!(search.step(), ScanStep::Again);
    assert_eq!(search.step(), ScanStep::Done);
    search.listed("/d", 0, Err(failure(IoKind::Other)));
    assert_eq!(search.finish().1, ["cannot scan /d: no luck"]);
}

#[test]
fn targets_that_make_no_sense_are_passed_over_with_a_warning() {
    let mut search = DevfreqSearch::new("/f/sys".to_owned());
    search.class_directory(
        "c",
        Ok(vec![ClassEntry::Named {
            name: "gpu".to_owned(),
            canonical: Ok("/f/sys/gpu".to_owned()),
        }]),
    );
    let (mut candidates, _) = search.finish();
    let files = TargetFiles {
        cpufreq: "class/cpufreq".to_owned(),
        policies: vec![
            ("policy0".to_owned(), policy(" ", "1", "2", None)),
            ("policy1".to_owned(), policy("0", "3", "2", None)),
        ],
        devices: vec![(candidates.remove(0), devfreq("g", "1", "9", Some("2 8"), None))],
        warnings: vec!["from the search".to_owned()],
    };
    let found = discover_recovery_targets(None, None, files).unwrap();
    assert!(found.capabilities.cpu_policies.is_empty());
    assert_eq!(found.warnings.len(), 4);
    assert_eq!(
        found.warnings[0],
        "skipping cpufreq policy0: invalid data in /sys/class/cpufreq/policy0/related_cpus: CPU policy has an empty CPU set"
    );
    assert_eq!(found.warnings[2], "from the search");
    assert_eq!(
        found.warnings[3],
        "skipping devfreq gpu: invalid data in /sys/class/devfreq/gpu/available_frequencies: current devfreq window lies outside the advertised OPP table"
    );
}

#[test]
fn optional_metadata_may_be_missing() {
    assert_eq!(read_optional_trimmed("p", Err(failure(IoKind::NotFound))).unwrap(), None);
    assert_eq!(read_optional_trimmed("p", Ok(" \n".to_owned())).unwrap(), None);
    assert_eq!(
        read_optional_trimmed("p", Err(failure(IoKind::Other))).unwrap_err().message(),
        "read system metadata failed for p: no luck"
    );
}

fn arguments(list: &[&str]) -> Vec<Option<String>> {
    list.iter().map(|a| Some((*a).to_owned())).collect()
}

#[test]
fn parses_output_and_fixture_options() {
    let parsed =
        Arguments::parse(&arguments(&["--compact", "--root", "/tmp/fixture"])).unwrap();
    assert_eq!(
        parsed,
        Arguments {
            pretty: false,
            device_draft: false,
            fixture_root: Some(FixtureRoot::Text("/tmp/fixture".to_owned())),
            help: false,
        }
    );
}

#[test]
fn rejects_missing_root_value() {
    assert!(Arguments::parse(&arguments(&["--root"])).is_err());
    assert_eq!(
        Arguments::parse(&arguments(&["--fast"])).unwrap_err(),
        "unknown argument `--fast`; use --help"
    );
    assert_eq!(
        Arguments::parse(&vec![None]).unwrap_err(),
        "arguments must be valid UTF-8"
    );
    assert_eq!(
        Arguments::parse(&vec![Some("--root".to_owned()), None]).unwrap().fixture_root,
        Some(FixtureRoot::Argument(1))
    );
}

#[test]
fn an_invalid_draft_is_not_given_out() {
    let nothing = DeviceCapabilities {
        device_name: None,
        compatible: Vec::new(),
        cpu_policies: Vec::new(),
        devfreq_targets: Vec::new(),
        thermal_zones: Vec::new(),
        input_devices: Vec::new(),
    };
    let draft = || device_draft(&nothing, 1);
    assert_eq!(checked_draft(draft(), Ok(())).unwrap().device_id, "draft-unidentified");
    assert_eq!(
        checked_draft(draft(), Err("no CPU policy".to_owned())).unwrap_err(),
        "generated draft was invalid: no CPU policy"
    );
}

#[test]
fn parses_device_draft_mode() {
    let parsed = Arguments::parse(&arguments(&["--device-draft"])).unwrap();
    assert!(parsed.device_draft);
}

#[test]
fn drafts_propose_values_within_the_hardware() {
    let limits = FrequencyLimits { min: 300_000_500, max: 900_000_000 };
    assert_eq!(draft_cpu_model(&Vec::new(), limits), (600_000_000, 900_000_000));
    assert_eq!(draft_cpu_model(&vec![1, 2, 3, 4], limits), (3, 4));
    let files = TargetFiles {
        cpufreq: "class/cpufreq".to_owned(),
        policies: vec![
            ("policy0".to_owned(), policy("0 1", "300", "900", None)),
            ("policy4".to_owned(), policy("4", "500", "1500", None)),
        ],
        devices: Vec::new(),
        warnings: Vec::new(),
    };
    let found =
        discover_recovery_targets(Some(b"Board\0".to_vec()), Some(b"v,b\0".to_vec()), files)
            .unwrap();
    let draft = device_draft(&found.capabilities, 3);
    assert_eq!(draft.schema_version, 3);
    assert_eq!(draft.device_id, "draft-v,b");
    assert_eq!(draft.device_match.unwrap().compatible.as_deref(), Some("v,b"));
    assert_eq!(draft.cpu_groups.get("all").unwrap().to_vec(), [0, 1, 4]);
    assert_eq!(draft.cpu_groups.get("efficient").unwrap().to_vec(), [0, 1]);
    assert_eq!(draft.cpu_groups.get("performance").unwrap().to_vec(), [4]);
    assert_eq!(draft.cpu_policies[1].critical_cap_hz, Some(500_000));
    assert!(draft.thermal_zones.is_empty());
}
