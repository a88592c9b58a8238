//! Kernel file formats: CPU lists, frequency lists, bitmaps, procfs records.

use uperf::linux::discovery::{
    collect_prefixed, list_numbered, read_hz, read_khz, read_required_with_fallback,
    unique_devfreq_id, Entry, MAX_PLAUSIBLE_TEMPERATURE, MIN_PLAUSIBLE_TEMPERATURE,
};
use uperf::linux::formats::{
    first_columns, first_compatible, has_type_b_multitouch_axes, linux_capability_bit,
    normalize_opps, nul_separated, nul_terminated_string, parse_compatible, parse_cpu_set,
    parse_frequency_list, stable_path_hash,
};
use uperf::linux::procfs::{
    assemble_process, clock_millis, executable_of, list_numeric_names, parse_cpu_times,
    parse_process_stat, parse_process_stat_bytes, parse_uids, parse_uids_bytes, LinuxClock, LinuxProc,
    ParsedProcessStat, ProcessFiles,
};
use uperf::linux::survey::{discover_input, discover_thermal, read_thermal_sample, InputFiles};
use uperf::model::{FrequencyLimits, SensorHealth};
use uperf::platform::{Clock, CpuTimes, IoFailure, IoKind, LoadRatio, PlatformError};

fn failure(kind: IoKind) -> IoFailure {
    IoFailure { kind, code: None, message: "no luck".to_owned() }
}

#[test]
fn cpu_list_supports_spaces_commas_ranges_and_sparse_ids() {
    let parsed = parse_cpu_set("related_cpus", "0-2, 7 128").unwrap();
    assert_eq!(parsed.to_vec(), [0, 1, 2, 7, 128]);
}

#[test]
fn cpu_set_faults_name_the_word() {
    assert_eq!(
        parse_cpu_set("related_cpus", "4-2").unwrap_err().message(),
        "invalid data in related_cpus: reversed CPU range `4-2`"
    );
    assert_eq!(
        parse_cpu_set("related_cpus", "x").unwrap_err().message(),
        "invalid data in related_cpus: invalid CPU ID `x`: invalid digit found in string"
    );
}

#[test]
fn capability_bitmap_requires_all_type_b_multitouch_axes() {
    assert!(has_type_b_multitouch_axes("260800000000000"));
    assert!(!has_type_b_multitouch_axes("800000000000"));
    assert!(!has_type_b_multitouch_axes("0"));
}

#[test]
fn bitmap_words_are_read_from_the_last() {
    assert!(linux_capability_bit("1 0", 64));
    assert!(!linux_capability_bit("1 0", 0));
    assert!(linux_capability_bit("1 zz 0", 64));
    assert!(!linux_capability_bit("1", 64));
}

#[test]
fn opp_normalization_is_dynamic_sorted_and_bounded() {
    let limits = FrequencyLimits { min: 200, max: 800 };
    let values = normalize_opps(&vec![900, 400, 400, 100], limits);
    assert_eq!(values, [200, 400, 800]);
}

#[test]
fn missing_opp_table_remains_a_continuous_range() {
    let values = normalize_opps(&Vec::new(), FrequencyLimits { min: 200, max: 800 });
    assert!(values.is_empty());
}

#[test]
fn sanitized_devfreq_collisions_never_reuse_a_fallback_id() {
    let mut used: Vec<String> = Vec::new();
    let ids = [
        unique_devfreq_id("target2", "/sys/devices/target2", 0, &mut used).unwrap(),
        unique_devfreq_id("z:a", "/sys/devices/z:a", 1, &mut used).unwrap(),
        unique_devfreq_id("z_a", "/sys/devices/z_a", 2, &mut used).unwrap(),
    ];
    assert_ne!(ids[0], ids[1]);
    assert_ne!(ids[0], ids[2]);
    assert_ne!(ids[1], ids[2]);
    assert_eq!(used.len(), ids.len());
    assert_eq!(ids[1], "devfreq.z_a");
    assert_eq!(
        ids[2],
        format!("devfreq.z_a.{:016x}", stable_path_hash("/sys/devices/z_a"))
    );
}

#[test]
fn an_empty_name_falls_back_to_the_position_of_the_device() {
    let mut used: Vec<String> = Vec::new();
    assert_eq!(unique_devfreq_id("", "/sys/devices/x", 5, &mut used).unwrap(), "devfreq.target5");
    let long = "n".repeat(90);
    let id = unique_devfreq_id(&long, "/sys/devices/y", 6, &mut used).unwrap();
    assert_eq!(id, format!("devfreq.{}", "n".repeat(56)));
    let second = unique_devfreq_id(&long, "/sys/devices/z", 7, &mut used).unwrap();
    assert_eq!(second.len(), 64);
    let third = unique_devfreq_id(&long, "/sys/devices/z", 8, &mut used).unwrap();
    assert!(third.ends_with(".1"));
}

#[test]
fn path_hash_is_fnv_1a() {
    assert_eq!(stable_path_hash(""), 0xcbf2_9ce4_8422_2325);
    assert_eq!(stable_path_hash("a"), 0xaf63_dc4c_8601_ec8c);
}

#[test]
fn implausible_thermal_sentinels_are_not_healthy_readings() {
    assert!(!(MIN_PLAUSIBLE_TEMPERATURE..=MAX_PLAUSIBLE_TEMPERATURE).contains(&-273_150));
    assert!((MIN_PLAUSIBLE_TEMPERATURE..=MAX_PLAUSIBLE_TEMPERATURE).contains(&95_000));
    let sentinel = read_thermal_sample(
        "/sys/class/thermal/thermal_zone3",
        None,
        Some("-273150".to_owned()),
        9,
    );
    assert_eq!(sentinel.zone_id, "thermal_zone3");
    assert_eq!(sentinel.zone_type, "unknown");
    assert_eq!(sentinel.reading.temperature, None);
    assert_eq!(sentinel.reading.health, SensorHealth::Unavailable);
    let healthy = read_thermal_sample(
        "/sys/class/thermal/thermal_zone3",
        Some("cpu".to_owned()),
        Some("95000".to_owned()),
        9,
    );
    assert_eq!(healthy.reading.temperature, Some(95_000));
    assert_eq!(healthy.reading.health, SensorHealth::Healthy);
}

#[test]
fn unhealthy_zones_are_listed_with_a_warning() {
    let mut warnings: Vec<String> = Vec::new();
    let samples = vec![read_thermal_sample("/sys/class/thermal/thermal_zone0", None, None, 1)];
    let (zones, paths) = discover_thermal(samples, &mut warnings);
    assert_eq!(zones.len(), 1);
    assert_eq!(
        paths.get("thermal_zone0").map(|p| p.as_str()),
        Some("/sys/class/thermal/thermal_zone0")
    );
    assert_eq!(warnings, ["thermal zone thermal_zone0 has no valid temperature"]);
}

#[test]
fn input_devices_without_a_name_are_passed_over() {
    let mut warnings: Vec<String> = Vec::new();
    let found = discover_input(
        vec![
            InputFiles { event: "event0".to_owned(), name: None, axes: None },
            InputFiles {
                event: "event1".to_owned(),
                name: Some("touch".to_owned()),
                axes: Some("260800000000000".to_owned()),
            },
        ],
        &mut warnings,
    );
    assert_eq!(found.len(), 1);
    assert!(found[0].multi_touch);
    assert_eq!(warnings, ["input event0 has no readable name"]);
}

#[test]
fn frequency_lists_are_scaled_and_checked() {
    assert_eq!(parse_frequency_list("f", "3 1\n2", 1_000).unwrap(), [3_000, 1_000, 2_000]);
    assert_eq!(
        parse_frequency_list("f", "1 x", 1).unwrap_err().message(),
        "invalid data in f: invalid frequency `x`: invalid digit found in string"
    );
    assert_eq!(
        parse_frequency_list("f", "18446744073709551615", 1_000).unwrap_err().message(),
        "invalid data in f: frequency `18446744073709551615` overflows hertz"
    );
}

#[test]
fn kilohertz_and_hertz_are_told_apart() {
    assert_eq!(read_khz("p", Ok("300000".to_owned())).unwrap(), 300_000_000);
    assert_eq!(read_hz("p", Ok("300000".to_owned())).unwrap(), 300_000);
    assert_eq!(
        read_khz("p", Ok("18446744073709551615".to_owned())).unwrap_err().message(),
        "invalid data in p: kHz value overflows hertz"
    );
    assert_eq!(
        read_khz("p", Ok(String::new())).unwrap_err().message(),
        "invalid data in p: invalid kHz value: cannot parse integer from empty string"
    );
    assert_eq!(
        read_hz("p", Ok("-1".to_owned())).unwrap_err().message(),
        "invalid data in p: invalid hertz value: invalid digit found in string"
    );
}

#[test]
fn only_a_missing_file_falls_back() {
    let missing = PlatformError::Io {
        operation: "read",
        path: "a".to_owned(),
        source: failure(IoKind::NotFound),
    };
    assert_eq!(read_required_with_fallback(Err(missing), Ok("b".to_owned())).unwrap(), "b");
    let forbidden = PlatformError::Io {
        operation: "read",
        path: "a".to_owned(),
        source: failure(IoKind::PermissionDenied),
    };
    assert!(read_required_with_fallback(Err(forbidden), Ok("b".to_owned())).is_err());
}

#[test]
fn statistics_give_the_first_column() {
    assert_eq!(first_columns("300000 12\n\n600000 7\n"), "300000 600000 ");
}

#[test]
fn numbered_entries_are_sorted_by_number() {
    let entries = vec![
        Entry::Named("policy10".to_owned()),
        Entry::Named("boost".to_owned()),
        Entry::Unnamed,
        Entry::Named("policy2".to_owned()),
        Entry::Named("policyx".to_owned()),
    ];
    let listed = list_numbered("list", "/d", "policy", Ok(entries)).unwrap();
    assert_eq!(listed, [(2, "policy2".to_owned()), (10, "policy10".to_owned())]);
    assert!(list_numbered("list", "/d", "policy", Err(failure(IoKind::NotFound)))
        .unwrap()
        .is_empty());
    assert_eq!(
        list_numbered("list", "/d", "policy", Err(failure(IoKind::PermissionDenied)))
            .unwrap_err()
            .message(),
        "list failed for /d: no luck"
    );
    assert_eq!(
        collect_prefixed(vec![Entry::Unreadable(failure(IoKind::Other))], "policy")
            .unwrap_err()
            .message(),
        "read directory entry failed for policy: no luck"
    );
}

#[test]
fn device_tree_strings_end_at_a_zero_byte() {
    assert_eq!(nul_terminated_string(b"Board X\0rest").as_deref(), Some("Board X"));
    assert_eq!(nul_terminated_string(b" \0"), None);
    assert_eq!(nul_terminated_string(&[0xff, 0]), None);
    assert_eq!(nul_separated(b"a,b\0\0c\0"), ["a,b", "c"]);
    assert_eq!(parse_compatible(" a \0\0b\0"), ["a", "b"]);
    assert_eq!(first_compatible("\0x\0y").as_deref(), Some("x"));
    assert_eq!(first_compatible("\0"), None);
}

#[test]
fn parses_sparse_cpu_ids_and_ignores_guest_double_accounting() {
    let input = "\
cpu  100 2 30 400 5 6 7 8 9 10
cpu0 20 1 10 100 2 3 4 5 6 7
cpu7 80 1 20 300 3 3 3 3 3 3
intr 0
";
    let snapshot = parse_cpu_times("/proc/stat", input, 42).unwrap();
    assert_eq!(snapshot.cpus.iter().map(|c| c.cpu).collect::<Vec<_>>(), [0, 7]);
    assert_eq!(snapshot.aggregate.total(), Some(558));
    assert_eq!(snapshot.observed_at, 42);
}

#[test]
fn malformed_cpu_counters_are_reported() {
    let message = |text: &str| parse_cpu_times("/proc/stat", text, 0).unwrap_err().message();
    assert_eq!(message("intr 0\n"), "invalid data in /proc/stat: missing aggregate cpu line");
    assert_eq!(
        message("cpu 1 2 3\n"),
        "invalid data in /proc/stat: cpu line has fewer than four counters"
    );
    assert_eq!(
        message("cpu 1 2 3 4\ncpu 1 2 3 4\n"),
        "invalid data in /proc/stat: duplicate aggregate cpu line"
    );
    assert_eq!(
        message("cpu 1 2 3 4\ncpu3 1 2 3 4\ncpu3 1 2 3 4\n"),
        "invalid data in /proc/stat: duplicate cpu3 line"
    );
    assert_eq!(
        message("cpu 1 2 3 4\ncpux 1 2 3 4\n"),
        "invalid data in /proc/stat: invalid CPU label: invalid digit found in string"
    );
    assert_eq!(
        message("cpu 1 2 x 4\n"),
        "invalid data in /proc/stat: invalid counter: invalid digit found in string"
    );
}

#[test]
fn process_stat_handles_spaces_and_parentheses_in_comm() {
    let stat = "123 (render worker (gpu)) S 1 2 3 4 5 6 7 8 9 10 11 12 13 14 15 16 17 18 777 20";
    let parsed = parse_process_stat("/proc/123/stat", stat, 123).unwrap();
    assert_eq!(parsed.comm, "render worker (gpu)");
    assert_eq!(parsed.start_time_ticks, 777);
}

#[test]
fn process_stat_treats_invalid_utf8_comm_as_lossy_metadata() {
    let mut stat = b"123 (render ".to_vec();
    stat.push(0xff);
    stat.extend_from_slice(b") S 1 2 3 4 5 6 7 8 9 10 11 12 13 14 15 16 17 18 777 20");
    let parsed = parse_process_stat_bytes("/proc/123/stat", &stat, 123).unwrap();
    assert_eq!(parsed.start_time_ticks, 777);
    assert!(parsed.comm.contains('\u{fffd}'));
}

#[test]
fn malformed_process_stat_is_reported() {
    let message = |bytes: &[u8]| {
        parse_process_stat_bytes("stat", bytes, 7).unwrap_err().message()
    };
    assert_eq!(message(b"7 x"), "invalid data in stat: missing command opening parenthesis");
    assert_eq!(message(b"7 )x("), "invalid data in stat: missing command closing parenthesis");
    assert_eq!(
        message(b"8 (x) S"),
        "invalid data in stat: PID in stat (8) differs from directory (7)"
    );
    assert_eq!(message(b"7 (x) S 1"), "invalid data in stat: stat has fewer than 22 fields");
    assert_eq!(
        message(b"a (x) S"),
        "invalid data in stat: invalid PID: invalid digit found in string"
    );
    assert_eq!(
        message(&[0xff, b'(', b'x', b')']),
        "invalid data in stat: invalid PID bytes: invalid utf-8 sequence of 1 bytes from index 0"
    );
    assert_eq!(
        message(&[b'7', b'(', b'x', b')', 0xff]),
        "invalid data in stat: invalid stat fields: invalid utf-8 sequence of 1 bytes from index 0"
    );
}

#[test]
fn uid_parser_retains_all_linux_credential_uids() {
    assert_eq!(
        parse_uids("/proc/7/status", "Name:\ttest\nUid:\t1000 0 0 0\n").unwrap(),
        [1000, 0, 0, 0]
    );
    assert!(parse_uids("/proc/7/status", "Uid:\t1000\n").is_err());
    assert_eq!(
        parse_uids("s", "Uid:\t1000\n").unwrap_err().message(),
        "invalid data in s: Uid line has 1 values instead of four"
    );
    assert_eq!(parse_uids_bytes("s", b"Name:\t\xff\nUid:\t1 2 3 4\n").unwrap(), [1, 2, 3, 4]);
    assert_eq!(
        parse_uids("s", "Name: x\n").unwrap_err().message(),
        "invalid data in s: missing Uid line"
    );
}

#[test]
fn computes_load_only_for_monotonic_counters() {
    let old = CpuTimes { user: 10, idle: 90, ..CpuTimes::default() };
    let new = CpuTimes { user: 30, idle: 100, ..CpuTimes::default() };
    let load = new.utilization_since(old).unwrap();
    assert!((load.busy as f64 / load.total as f64 - (2.0 / 3.0)).abs() < f64::EPSILON);
    assert!(old.utilization_since(new).is_none());
}

#[test]
fn cpu_utilization_rejects_any_individual_counter_regression() {
    let previous = CpuTimes {
        user: 100,
        nice: 10,
        system: 20,
        idle: 200,
        io_wait: 5,
        irq: 2,
        soft_irq: 3,
        steal: 1,
    };
    let mut current = previous;
    current.user = 99;
    current.system = 200;

    assert_eq!(current.utilization_since(previous), None);
}

#[test]
fn cpu_utilization_uses_checked_per_field_deltas() {
    let previous = CpuTimes { user: 10, idle: 10, ..CpuTimes::default() };
    let current = CpuTimes { user: 15, idle: 15, ..CpuTimes::default() };

    assert_eq!(
        current.utilization_since(previous),
        Some(LoadRatio { busy: 5, total: 10 })
    );
}

#[test]
fn numeric_directory_listing_preserves_sparse_thread_ids() {
    let names = vec!["42".to_owned(), "7".to_owned(), "self".to_owned()];
    assert_eq!(list_numeric_names(&names), [7, 42]);
    let twice = vec!["9".to_owned(), "1".to_owned(), "09".to_owned()];
    assert_eq!(list_numeric_names(&twice), [1, 9, 9]);
}

fn record(start_time_ticks: u64) -> ParsedProcessStat {
    ParsedProcessStat { comm: "game".to_owned(), start_time_ticks }
}

#[test]
fn a_process_number_reused_while_sampling_is_no_process() {
    let files = ProcessFiles {
        before: record(5),
        uids: [1, 1, 1, 1],
        executable: None,
        after: record(6),
    };
    assert_eq!(
        assemble_process(42, files).unwrap_err().message(),
        "resource disappeared while being observed: process 42 changed identity while procfs was sampled"
    );
    let files = ProcessFiles {
        before: record(5),
        uids: [1, 0, 1, 1],
        executable: None,
        after: record(5),
    };
    let process = assemble_process(42, files).unwrap();
    assert!(!process.owner_control_safe);
    assert_eq!(process.identity.uid, 1);
    assert_eq!(process.identity.start_time_ticks, 5);
}

#[test]
fn an_unreadable_program_link_is_no_failure() {
    assert_eq!(executable_of("exe", Err(failure(IoKind::PermissionDenied))).unwrap(), None);
    assert_eq!(
        executable_of("exe", Ok("/usr/bin/game".to_owned())).unwrap().as_deref(),
        Some("/usr/bin/game")
    );
    assert!(executable_of("exe", Err(failure(IoKind::Other))).is_err());
}

#[test]
fn procfs_adapter_names_process_directories() {
    let adapter = LinuxProc::new("/proc", Ok("/proc".to_owned())).unwrap();
    assert_eq!(adapter.root(), "/proc");
    assert_eq!(adapter.process_directory(7), "/proc/7");
    assert!(LinuxProc::new("/proc", Err(failure(IoKind::NotFound))).is_err());
}

#[test]
fn the_clock_does_not_go_back() {
    let clock = LinuxClock::default();
    let first = clock.monotonic_millis();
    assert!(clock.monotonic_millis() >= first);
    assert_eq!(clock_millis(7), 7);
    assert_eq!(clock_millis(u128::MAX), u64::MAX);
}
