//! The runtime state owner, its observers and the service in front of it.

use uperf::api::{
    ActiveWorkload, ApiVersion, AppRule, Capabilities, DaemonStatus, FrequencyOverride,
    SchedulerStatus, WorkloadIdentity,
};
use uperf::daemon::barriers::RuntimeInput;
use uperf::daemon::commands::Command;
use uperf::daemon::config::{
    AutomaticPolicy, InputPolicy, ObserverSettings, Policy, ResolvedConfiguration, ResolvedTarget,
    TargetPaths,
};
use uperf::daemon::contacts::ActiveTouchContacts;
use uperf::daemon::names::{parse_mode, RuntimeError};
use uperf::daemon::observer::{
    read_current_frequency, read_frequency_limits, ObserverControl, ObserverWake,
    ThermalObserverSettings,
};
use uperf::daemon::publish::{utilization_to_basis_points, RuntimeEvent};
use uperf::daemon::rules::{api_rule_to_core, core_rule_to_api};
use uperf::daemon::service::{
    map_runtime_error, matched_game_pattern, required_permission, scan_running_workloads,
    Permission, PumpEvent, RunningWorkloadScanner, ServiceCall, ServiceError, Signal, SignalPump,
    StateProperties,
};
use uperf::daemon::state::{
    Action, ActuatorFacts, ActuatorMode, ActuatorReport, DesiredPlan, IdentityInFlight,
    IdentityPurpose, RuntimeActor,
};
use uperf::daemon::timing::{frequency_sample_is_stale, retry_delay_ms, FREQUENCY_STALE_AFTER_MS};
use uperf::model::{
    FrequencyLimits, ModeSelection, ProcessIdentity, ProcessInfo, ProfileId, Scene, ThermalState,
};
use uperf::platform::{
    Clock, InputDeviceId, InputEvent, LoadRatio, OnlineCpuSource, PlatformError, PlatformResult,
    ProcReader, SysfsIo, TouchContactId,
};
use uperf::cpuset::CpuIds;
use uperf::table::Table;
use uperf::testkit::{advance_time, FakeClock, FakeProc, FakeRuntime};

fn contact(device: u64, tracking_id: u32) -> TouchContactId {
    TouchContactId::new(InputDeviceId::new(device), tracking_id)
}

#[test]
fn touch_remains_active_until_the_last_contact_is_released() {
    let mut contacts = ActiveTouchContacts::default();
    assert!(contacts.press(contact(1, 7)));
    assert!(!contacts.press(contact(1, 8)));
    assert!(!contacts.press(contact(2, 7)));

    assert!(!contacts.release(contact(1, 7)));
    assert!(!contacts.release(contact(99, 7)));
    assert!(!contacts.release(contact(1, 8)));
    assert!(contacts.release(contact(2, 7)));
}

#[test]
fn device_resync_preserves_contacts_from_other_devices() {
    let mut contacts = ActiveTouchContacts::default();
    assert!(contacts.press(contact(10, 1)));
    assert!(!contacts.press(contact(20, 1)));

    assert!(!contacts.resync(Some(InputDeviceId::new(10))));
    assert!(contacts.release(contact(20, 1)));

    assert!(contacts.press(contact(10, 2)));
    assert!(!contacts.press(contact(20, 2)));
    assert!(contacts.resync(None));
}

#[test]
fn frequency_sample_staleness_has_a_bounded_deadline() {
    let last = 100;
    assert!(!frequency_sample_is_stale(Some(last), last + FREQUENCY_STALE_AFTER_MS));
    assert!(frequency_sample_is_stale(Some(last), last + FREQUENCY_STALE_AFTER_MS + 1));
    assert!(frequency_sample_is_stale(Some(last + 1), last));
    assert!(frequency_sample_is_stale(None, last));
}

fn input_policy() -> InputPolicy {
    InputPolicy {
        trigger_duration_ms: 100,
        gesture_duration_ms: 200,
        switch_duration_ms: 300,
        wake_duration_ms: 500,
    }
}

fn settings(thermal_interval_ms: u64, path: &str) -> ObserverSettings {
    ObserverSettings {
        generation: 1,
        load_interval_ms: 250,
        thermal_interval_ms,
        thermal_paths: vec![path.to_owned()],
        input: input_policy(),
    }
}

#[test]
fn observer_reload_immediately_uses_the_latest_thermal_settings() {
    let mut control = ObserverControl::new(settings(60_000, "/sys/class/thermal/old/temp"));
    let first = ThermalObserverSettings::select(&control.settings);
    let generation = control.generation;
    assert_eq!(first.paths, ["/sys/class/thermal/old/temp"]);
    assert!(matches!(control.wait(generation, 60_000, 0), ObserverWake::Wait(60_000)));
    control.replace_settings(settings(30_000, "/sys/class/thermal/new/temp"));
    assert!(matches!(control.wait(generation, 60_000, 0), ObserverWake::Settings));
    let second = ThermalObserverSettings::select(&control.settings);
    assert_eq!(second.paths, ["/sys/class/thermal/new/temp"]);
    assert!(!second.same_as(&first));
    assert!(!control.may_publish(generation));
    control.stop();
    assert!(!control.may_publish(control.generation));
}

#[test]
fn thermal_settings_compare_paths_by_their_components() {
    let select = |path: &str| ThermalObserverSettings::select(&settings(60_000, path));
    assert!(select("/sys//class/x").same_as(&select("/sys/class/./x")));
    assert!(!select("/sys/class/x").same_as(&select("/sys/class/y")));
}

/// Files with fixed texts, which remembers what was read.
struct Files {
    minimum: &'static str,
    read: std::sync::Mutex<Vec<String>>,
}

impl SysfsIo for Files {
    fn read_string(&self, path: &str) -> PlatformResult<String> {
        self.read.lock().unwrap().push(path.to_owned());
        match path {
            "/sys/min" => Ok(self.minimum.to_owned()),
            "/sys/max" => Ok("3000".to_owned()),
            "/sys/cur" => Ok(" 2000\n".to_owned()),
            _ => Err(PlatformError::Disappeared(path.to_owned())),
        }
    }

    fn write_string(&self, _path: &str, _value: &str) -> PlatformResult<()> {
        Err(PlatformError::Unsupported("writing"))
    }
}

#[test]
fn the_upper_limit_is_read_only_after_a_usable_lower_one() {
    let files = |minimum| Files { minimum, read: std::sync::Mutex::new(Vec::new()) };
    let good = files("1000\n");
    assert_eq!(
        read_frequency_limits(&good, &target()),
        Ok(FrequencyLimits { min: 1_000, max: 3_000 })
    );
    assert_eq!(read_current_frequency(&good, &target()), Some(2_000));
    assert_eq!(*good.read.lock().unwrap(), ["/sys/min", "/sys/max", "/sys/cur"]);
    let bad = files("fast");
    assert!(read_frequency_limits(&bad, &target()).unwrap_err().starts_with("/sys/min: "));
    assert_eq!(*bad.read.lock().unwrap(), ["/sys/min"]);
}

fn target() -> ResolvedTarget {
    ResolvedTarget {
        hardware_limits: FrequencyLimits { min: 1_000, max: 3_000 },
        available_frequencies: vec![1_000, 2_000, 3_000],
        automatic_policy: Some(AutomaticPolicy { efficient_cap: 2_000, reference: 2_000 }),
        critical_cap: 1_000,
        sensor_failure_cap: 1_000,
        paths: TargetPaths {
            minimum: "/sys/min".to_owned(),
            maximum: "/sys/max".to_owned(),
            current: "/sys/cur".to_owned(),
            hertz_per_unit: 1,
        },
    }
}

fn configuration() -> ResolvedConfiguration {
    let mut targets: Table<ResolvedTarget> = Table::new();
    targets.insert("cpu.test".to_owned(), target());
    ResolvedConfiguration {
        policy: Policy {
            default_profile: ProfileId::Balance,
            load_enabled: true,
            load_sample_interval_ms: 250,
            thermal_sample_interval_ms: 1_000,
            input: input_policy(),
            scheduler_enabled: false,
            has_cgroup_classes: false,
        },
        targets,
        thermal_zones: Vec::new(),
        administrator_caps: Table::new(),
        warnings: Vec::new(),
        apps: Vec::new(),
        capabilities: Capabilities::default(),
    }
}

fn report() -> ActuatorReport {
    ActuatorReport { mode: ActuatorMode::ReadWrite, recovery_required: Some(false) }
}

fn actor() -> RuntimeActor {
    let mut actor = RuntimeActor::new(
        configuration(),
        Some(ActuatorFacts { process_backend: false, systemd_backend: false }),
        &report(),
    );
    actor.take_actions();
    actor
}

#[test]
fn identical_frequency_safety_requests_are_coalesced() {
    let mut parts = configuration();
    parts.targets = Table::new();
    let mut actor = RuntimeActor::new(parts, None, &report());
    let caps = || {
        let mut caps: Table<u64> = Table::new();
        caps.insert("cpu.test".to_owned(), 1_000);
        caps
    };
    actor.request_frequency_safety_update(caps());
    let first = actor.work.safety_update_in_flight;
    assert!(first.is_some());
    actor.request_frequency_safety_update(caps());
    assert_eq!(actor.work.safety_update_in_flight, first);
    assert!(actor.caps.pending.is_none());
}

#[test]
fn frequency_safety_worker_failure_is_a_mandatory_component_failure() {
    let mut actor = actor();
    actor.work.safety_update_in_flight = Some(7);
    actor.finish_frequency_safety_update(
        7,
        Err("injected safety fence failure".to_owned()),
        &report(),
    );
    let issue = actor.health_issues.get("safety.frequency_fence").expect("health issue");
    assert_eq!(issue.component, "actuator");
    assert_eq!(actor.health().state, "failed");
}

/// Hands the settings that were asked for to the observers.
fn forward_settings(actor: &mut RuntimeActor, observers: &mut ObserverControl) {
    for action in actor.take_actions() {
        if let Action::ReplaceSettings { settings } = action {
            observers.replace_settings(settings);
        }
    }
}

#[test]
fn app_rule_generation_does_not_invalidate_thermal_observations() {
    let mut actor = actor();
    let mut observers =
        ObserverControl::new(ObserverSettings::from_configuration(&configuration(), 1));
    let observer_generation = actor.counters.observer_generation;
    actor.finish_app_persistence(
        Vec::new(),
        "test-rule".to_owned(),
        "test application rule persisted",
        3,
        Ok(()),
    );
    forward_settings(&mut actor, &mut observers);
    assert_eq!(actor.counters.config_generation, 2);
    assert_eq!(actor.counters.observer_generation, observer_generation);
    assert_eq!(observers.settings.generation, observer_generation);
    assert!(actor.accepts_thermal(observers.settings.generation));
    assert!(!actor.accepts_thermal(observer_generation + 1));

    actor.receive_reload(4, Ok(configuration()), 20, &report());
    forward_settings(&mut actor, &mut observers);
    assert_eq!(observers.settings.generation, observer_generation + 1);
    assert!(!actor.accepts_thermal(observer_generation));
}

fn process(pid: u32, uid: u32, comm: &str, executable: &str) -> ProcessInfo {
    ProcessInfo {
        identity: ProcessIdentity { pid, start_time_ticks: u64::from(pid) * 10, uid },
        owner_control_safe: true,
        comm: comm.to_owned(),
        executable: Some(executable.to_owned()),
        desktop_id: None,
    }
}

#[test]
fn stale_workload_refresh_cannot_clear_a_newer_identity_generation() {
    let mut actor = actor();
    let active = process(42, 1_000, "test-workload", "/usr/bin/test-workload");
    let expected = active.identity;
    actor.selection.workload = Some(active.duplicate());
    actor.work.identity_in_flight = Some(IdentityInFlight { id: 2, is_control_request: true });
    actor.finish_process_identity(
        1,
        IdentityPurpose::Refresh { expected },
        Err("stale read observed a vanished process".to_owned()),
        10,
    );
    assert_eq!(actor.selection.workload, Some(active));
    assert_eq!(actor.work.identity_in_flight.map(|r| r.id), Some(2));
}

/// Answers the evaluations that were asked for: the hint decides the scene.
fn evaluate(actor: &mut RuntimeActor, now: u64) -> bool {
    let mut asked = false;
    for action in actor.take_actions() {
        if let Action::Evaluate { then_barriers } = action {
            asked = true;
            let input = actor.prepare_evaluation(None, now);
            let plan = DesiredPlan {
                generation: input.generation,
                effective_profile: ProfileId::Balance,
                dominant_scene: if actor.observed.hints.contains_active(Scene::Wake, now) {
                    Scene::Wake
                } else {
                    Scene::Idle
                },
                frequencies: Table::new(),
                tasks: Vec::new(),
            };
            actor.finish_evaluation(Ok(plan), then_barriers, now, &report());
        }
    }
    asked
}

#[test]
fn fake_clock_drives_hint_expiry_through_the_complete_actor() {
    let clock = FakeClock::new(10);
    let mut actor = actor();
    let scene = |actor: &RuntimeActor, now: u64| {
        actor.published(ApiVersion { major: 1, minor: 0 }, "0.1", now).status.dominant_scene
    };
    let mut now = clock.monotonic_millis();
    actor.reduce_runtime_input(RuntimeInput::Hint(Scene::Wake), now, &report());
    assert!(evaluate(&mut actor, now));
    assert_eq!(scene(&actor, now), "wake");

    now = clock.advance(499);
    let changed = actor.age_readings(now);
    actor.on_tick(changed, ThermalState::Degraded, now);
    evaluate(&mut actor, now);
    assert_eq!(scene(&actor, now), "wake");

    now = clock.advance(2);
    let changed = actor.age_readings(now);
    actor.on_tick(changed, ThermalState::Degraded, now);
    assert!(evaluate(&mut actor, now));
    assert_eq!(scene(&actor, now), "idle");
    assert!(!actor.observed.hints.contains_active(Scene::Wake, now));
}

fn sleep_answers(actor: &mut RuntimeActor) -> Vec<(u64, Result<(), String>)> {
    actor
        .take_actions()
        .into_iter()
        .filter_map(|a| match a {
            Action::AnswerSleep { ticket, result } => Some((ticket, result)),
            _ => None,
        })
        .collect()
}

#[test]
fn a_newer_sleep_supersedes_a_pending_resume() {
    let mut actor = actor();
    let sleep = |sleeping, ticket| RuntimeInput::PrepareForSleep { sleeping, ticket };
    actor.reduce_runtime_input(sleep(true, 1), 5, &report());
    let started = actor.take_actions();
    let Some(Action::StartRestore { id }) = started.first() else {
        panic!("a restoration starts: {started:?}");
    };
    actor.reduce_runtime_input(sleep(false, 2), 6, &report());
    assert!(sleep_answers(&mut actor).is_empty());
    actor.reduce_runtime_input(sleep(true, 3), 7, &report());
    assert_eq!(
        sleep_answers(&mut actor),
        [(2, Err("a newer sleep transition superseded the pending resume".to_owned()))]
    );
    actor.finish_restore(*id, Ok(()), 8, &report());
    assert_eq!(sleep_answers(&mut actor), [(1, Ok(())), (3, Ok(()))]);
    assert!(actor.gates.suspended);
    actor.reduce_runtime_input(sleep(false, 4), 9, &report());
    assert_eq!(sleep_answers(&mut actor), [(4, Ok(()))]);
    assert!(!actor.gates.suspended);
}

#[test]
fn control_stays_closed_after_shutdown_has_begun() {
    let mut actor = actor();
    actor.handle_command(Command::BeginShutdown { ticket: 1 }, 5, &report());
    actor.take_actions();
    actor.handle_command(Command::Activate { ticket: 2 }, 6, &report());
    actor.receive_reload(3, Ok(configuration()), 7, &report());
    actor.on_tick(false, ThermalState::Normal, 8);
    actor.take_actions();
    let mode = actor.selection.mode;
    actor.handle_command(
        Command::SetMode { mode: "performance".to_owned(), ticket: 4 },
        9,
        &report(),
    );
    assert!(matches!(
        actor.take_actions().as_slice(),
        [Action::AnswerMutation { ticket: 4, result: Err(RuntimeError::Conflict(_)) }]
    ));
    assert_eq!(actor.selection.mode, mode);
}

#[test]
fn a_lost_worker_ends_mutation_for_good() {
    let mut actor = actor();
    actor.work.reconcile_in_flight = true;
    actor.finish_reconcile(Err("panicked".to_owned()), 5, &report());
    assert!(!actor.work.reconcile_in_flight);
    assert_eq!(actor.health().state, "failed");
    let issue = actor.health_issues.get("reconciler.worker").expect("health issue");
    assert_eq!(issue.severity, "critical");
    actor.refresh_actuator_health(&report());
    actor.receive_reload(3, Ok(configuration()), 7, &report());
    actor.caps.thermal_state = ThermalState::Normal;
    actor.take_actions();
    actor.handle_command(
        Command::ClearFrequencyOverrides { target_ids: Vec::new(), ticket: 8 },
        9,
        &report(),
    );
    assert!(matches!(
        actor.take_actions().as_slice(),
        [Action::AnswerMutation { ticket: 8, result: Err(RuntimeError::Degraded(_)) }]
    ));
}

#[test]
fn a_reload_may_spell_the_kernel_paths_differently() {
    let mut actor = actor();
    actor.take_actions();
    let mut spelled = configuration();
    let mut targets: Table<ResolvedTarget> = Table::new();
    let mut same = target();
    same.paths.minimum = "/sys//min".to_owned();
    same.paths.maximum = "/sys/./max/".to_owned();
    targets.insert("cpu.test".to_owned(), same);
    spelled.targets = targets;
    actor.receive_reload(3, Ok(spelled), 7, &report());
    assert_eq!(actor.counters.config_generation, 2);

    let mut moved = configuration();
    let mut targets: Table<ResolvedTarget> = Table::new();
    let mut other = target();
    other.paths.minimum = "/sys/other".to_owned();
    targets.insert("cpu.test".to_owned(), other);
    moved.targets = targets;
    actor.receive_reload(4, Ok(moved), 8, &report());
    assert_eq!(actor.counters.config_generation, 2);
}

#[test]
fn touches_begin_and_end_in_turn() {
    let mut contacts = ActiveTouchContacts::default();
    let mut begun = 0;
    let mut ended = 0;
    for step in 0..40u32 {
        let c = contact(u64::from(step % 3), step * 7 % 5);
        match step % 4 {
            0 | 1 => begun += u32::from(contacts.press(c)),
            2 => ended += u32::from(contacts.release(c)),
            _ => {
                let device = (step % 8 == 3).then(|| InputDeviceId::new(u64::from(step % 3)));
                ended += u32::from(contacts.resync(device));
            }
        }
        assert_eq!(begun - ended, u32::from(!contacts.is_empty()));
    }
    assert!(begun > 2);
}

#[test]
fn touches_hold_the_touch_scene() {
    let mut actor = actor();
    let at = uperf::platform::Point {
        x: uperf::platform::AxisShare { offset: 0, span: 1 },
        y: uperf::platform::AxisShare { offset: 0, span: 1 },
    };
    let down = InputEvent::TouchDown { contact: contact(1, 1), at };
    actor.reduce_runtime_input(RuntimeInput::Input(down), 5, &report());
    assert!(actor.observed.hints.contains_active(Scene::Touch, 1_000_000));
    let up = InputEvent::TouchUp { contact: contact(1, 1), at };
    actor.reduce_runtime_input(RuntimeInput::Input(up), 6, &report());
    assert!(!actor.observed.hints.contains_active(Scene::Touch, 7));
    assert!(actor.observed.hints.contains_active(Scene::Trigger, 7));
}

#[test]
fn sleep_is_acknowledged_after_restoration() {
    let mut actor = actor();
    actor.reduce_runtime_input(
        RuntimeInput::PrepareForSleep { sleeping: true, ticket: 11 },
        5,
        &report(),
    );
    let actions = actor.take_actions();
    let Some(Action::StartRestore { id }) = actions.first() else {
        panic!("a restoration starts: {actions:?}");
    };
    assert!(!actions.iter().any(|a| matches!(a, Action::AnswerSleep { .. })));
    actor.finish_restore(*id, Ok(()), 6, &report());
    assert!(actor
        .take_actions()
        .iter()
        .any(|a| matches!(a, Action::AnswerSleep { ticket: 11, result: Ok(()) })));
}

#[test]
fn concurrent_stop_callers_share_one_restore_result() {
    let mut actor = actor();
    actor.request_stop(1, 5, &report());
    actor.request_stop(2, 5, &report());
    let starts: Vec<u64> = actor
        .take_actions()
        .iter()
        .filter_map(|a| match a {
            Action::StartRestore { id } => Some(*id),
            _ => None,
        })
        .collect();
    assert_eq!(starts.len(), 1);
    actor.finish_restore(starts[0], Ok(()), 6, &report());
    let answered: Vec<u64> = actor
        .take_actions()
        .iter()
        .filter_map(|a| match a {
            Action::AnswerControl { ticket, result: Ok(()) } => Some(*ticket),
            _ => None,
        })
        .collect();
    assert_eq!(answered, [1, 2]);
}

#[test]
fn modes_are_set_by_name() {
    let mut actor = actor();
    actor.handle_command(
        Command::SetMode { mode: "performance".to_owned(), ticket: 4 },
        5,
        &report(),
    );
    assert!(actor.take_actions().iter().any(|a| matches!(
        a,
        Action::AnswerMutation { ticket: 4, result: Ok(_) }
    )));
    actor.handle_command(Command::SetMode { mode: "warp".to_owned(), ticket: 5 }, 6, &report());
    assert!(actor.take_actions().iter().any(|a| matches!(
        a,
        Action::AnswerMutation {
            ticket: 5,
            result: Err(RuntimeError::InvalidArgument(_))
        }
    )));
    assert!(matches!(parse_mode("auto"), Ok(ModeSelection::Auto)));
}

#[test]
fn overrides_outside_the_hardware_are_refused_as_a_batch() {
    let mut actor = actor();
    actor.handle_command(Command::Activate { ticket: 1 }, 5, &report());
    actor.take_actions();
    actor.caps.thermal_state = ThermalState::Normal;
    let window = |min_hz: u64, max_hz: u64| FrequencyOverride {
        target_id: "cpu.test".to_owned(),
        min_hz,
        max_hz,
        ttl_ms: 0,
        reason: String::new(),
    };
    actor.handle_command(
        Command::SetFrequencyOverrides { overrides: vec![window(1_000, 9_000)], ticket: 2 },
        6,
        &report(),
    );
    assert!(actor.take_actions().iter().any(|a| matches!(
        a,
        Action::AnswerMutation { ticket: 2, result: Err(_) }
    )));
    assert!(actor.selection.overrides.is_empty());
    actor.handle_command(
        Command::SetFrequencyOverrides { overrides: vec![window(1_000, 2_000)], ticket: 3 },
        7,
        &report(),
    );
    assert!(actor.take_actions().iter().any(|a| matches!(
        a,
        Action::AnswerMutation { ticket: 3, result: Ok(_) }
    )));
    assert_eq!(actor.selection.overrides.len(), 1);
}

#[test]
fn snapshots_precede_their_signals() {
    let mut actor = actor();
    let mut marks = actor.marks();
    let revision = actor.counters.state_revision;
    actor.handle_command(
        Command::SetMode { mode: "performance".to_owned(), ticket: 4 },
        5,
        &report(),
    );
    let (events, changes) = actor.announce_changes(&mut marks);
    assert!(changes.state);
    assert_eq!(events[0], RuntimeEvent::Published);
    assert_eq!(events[1], RuntimeEvent::StateChanged(revision + 1));
    let (quiet, _) = actor.announce_changes(&mut marks);
    assert!(quiet.is_empty());
    let picture = actor.published(ApiVersion { major: 1, minor: 0 }, "0.1", 6);
    assert_eq!(picture.status.mode, "performance");
    assert_eq!(picture.status.daemon_version, "0.1");
}

#[test]
fn rules_survive_the_round_trip() {
    let rule = AppRule {
        id: "game".to_owned(),
        enabled: true,
        owner_uid: u32::MAX,
        executable: Some("/usr/bin/game".to_owned()),
        comm_regex: None,
        mode: "performance".to_owned(),
        priority: 7,
    };
    let core = api_rule_to_core(&rule).unwrap();
    assert_eq!(core_rule_to_api(&core), rule);
    let owned = AppRule { owner_uid: 1000, ..rule };
    assert!(api_rule_to_core(&owned).is_err());
}

#[test]
fn pauses_and_loads_are_bounded() {
    assert!(retry_delay_ms(1) <= retry_delay_ms(2));
    assert_eq!(retry_delay_ms(u32::MAX), retry_delay_ms(u32::MAX - 1));
    assert_eq!(utilization_to_basis_points(LoadRatio { busy: 1, total: 3 }), 3_333);
    assert_eq!(utilization_to_basis_points(LoadRatio { busy: 3, total: 3 }), 10_000);
}

fn proc_of(list: Vec<ProcessInfo>) -> FakeProc {
    let mut procfs = FakeProc::default();
    for p in list {
        procfs.insert_process(p);
    }
    procfs
}

#[test]
fn broad_game_patterns_are_observational_and_uid_filtered() {
    let procfs = proc_of(vec![
        process(10, 1000, "wine64-preloader", "/usr/bin/wine64"),
        process(11, 1000, "pressure-vessel", "/opt/Proton/run"),
        process(12, 1001, "steamwebhelper", "/usr/lib/steam/steam"),
        process(13, 1000, "ordinary", "/usr/bin/ordinary"),
    ]);
    let mut scanner = RunningWorkloadScanner::new();
    scanner.refresh(scan_running_workloads(&procfs)).expect("refresh candidates");
    let nothing = ActiveWorkload::default();
    let idle = SchedulerStatus::default();
    let own = scanner.snapshot(&nothing, &idle, 1000);
    assert_eq!(
        own.iter().map(|c| c.matched_pattern.as_str()).collect::<Vec<_>>(),
        ["wine", "proton"]
    );
    assert_eq!(scanner.snapshot(&nothing, &idle, 0).len(), 3);
    assert_eq!(matched_game_pattern(&process(1, 1, "ordinary", "/bin/x")), None);
}

fn workload(identity: WorkloadIdentity, name: &str, source: &str) -> ActiveWorkload {
    ActiveWorkload {
        present: true,
        identity,
        name: name.to_owned(),
        source: source.to_owned(),
        ..ActiveWorkload::default()
    }
}

fn applied(rule: &str) -> SchedulerStatus {
    SchedulerStatus {
        enabled: true,
        matched_rule: rule.to_owned(),
        managed_tasks: 3,
        applied_tasks: 3,
        ..SchedulerStatus::default()
    }
}

#[test]
fn explicit_active_workload_is_visible_without_a_broad_match() {
    let identity = WorkloadIdentity { pid: 77, start_time_ticks: 1234, uid: 1000 };
    let scanner = RunningWorkloadScanner::new();
    let candidates = scanner.snapshot(
        &workload(identity, "custom-engine", "explicit"),
        &applied("game-process"),
        1000,
    );
    assert_eq!(candidates.len(), 1);
    assert_eq!(candidates[0].identity, identity);
    assert_eq!(candidates[0].matched_pattern, "active");
    assert!(candidates[0].active);
    assert_eq!(candidates[0].scheduler, applied("game-process"));
}

#[test]
fn focus_only_workload_is_not_synthesized_as_an_explicit_candidate() {
    let identity = WorkloadIdentity { pid: 77, start_time_ticks: 1234, uid: 1000 };
    assert!(RunningWorkloadScanner::new()
        .snapshot(&workload(identity, "ordinary", "focus"), &applied("focus-default"), 1000)
        .is_empty());
}

#[test]
fn focused_game_candidate_remains_inactive_and_has_no_scheduler_snapshot() {
    let procfs = proc_of(vec![process(77, 1000, "wine64-preloader", "/usr/bin/wine64")]);
    let identity = WorkloadIdentity { pid: 77, start_time_ticks: 770, uid: 1000 };
    let mut scanner = RunningWorkloadScanner::new();
    scanner.refresh(scan_running_workloads(&procfs)).expect("refresh candidate");
    let candidates = scanner.snapshot(
        &workload(identity, "wine64-preloader", "focus"),
        &applied("focus-default"),
        1000,
    );
    assert_eq!(candidates.len(), 1);
    assert_eq!(candidates[0].identity, identity);
    assert_eq!(candidates[0].matched_pattern, "wine");
    assert!(!candidates[0].active);
    assert_eq!(candidates[0].scheduler, SchedulerStatus::default());
}

#[test]
fn explicit_workload_replaces_a_scanned_identity_that_reused_the_same_pid() {
    let procfs = proc_of(vec![process(77, 1000, "wine64-preloader", "/usr/bin/wine64")]);
    let mut scanner = RunningWorkloadScanner::new();
    scanner.refresh(scan_running_workloads(&procfs)).expect("refresh stale candidate");
    let identity = WorkloadIdentity { pid: 77, start_time_ticks: 1234, uid: 1000 };
    let candidates = scanner.snapshot(
        &workload(identity, "replacement", "explicit"),
        &applied("game-process"),
        1000,
    );
    assert_eq!(candidates.len(), 1);
    assert_eq!(candidates[0].identity, identity);
    assert_eq!(candidates[0].name, "replacement");
    assert_eq!(candidates[0].matched_pattern, "active");
    assert!(candidates[0].active);
    assert_eq!(candidates[0].scheduler, applied("game-process"));
}

#[test]
fn runtime_errors_keep_their_kind_and_message() {
    assert!(matches!(
        map_runtime_error(RuntimeError::Conflict("busy".to_owned())),
        ServiceError::Conflict(m) if m == "busy"
    ));
    assert!(matches!(
        map_runtime_error(RuntimeError::Validation("bad".to_owned())),
        ServiceError::ValidationFailed(m) if m == "bad"
    ));
}

#[test]
fn calls_need_their_permission() {
    assert_eq!(required_permission(ServiceCall::SetMode), Permission::Control);
    assert_eq!(
        required_permission(ServiceCall::SetActiveWorkload { with_mode: true }),
        Permission::IdentityAndControl
    );
    assert_eq!(
        required_permission(ServiceCall::SetActiveWorkload { with_mode: false }),
        Permission::Identity
    );
    assert_eq!(
        required_permission(ServiceCall::SetForegroundProcess),
        Permission::ActiveSession
    );
    assert_eq!(required_permission(ServiceCall::ReloadConfig), Permission::Administration);
}

#[test]
fn signals_name_changed_properties_only() {
    let before = DaemonStatus { mode: "auto".to_owned(), ..DaemonStatus::default() };
    let after = DaemonStatus { mode: "performance".to_owned(), ..DaemonStatus::default() };
    let mut pump = SignalPump {
        properties: StateProperties::capture(&before),
        telemetry_sequence: None,
    };
    let signals = pump.on_event(PumpEvent::StateChanged(5), StateProperties::capture(&after));
    assert!(signals.contains(&Signal::StateChanged(5)));
    assert!(signals.contains(&Signal::ModeProperty));
    assert!(!signals.contains(&Signal::EffectiveProfileProperty));
    assert!(pump.on_telemetry(1));
    assert!(!pump.on_telemetry(1));
}

#[test]
fn fake_clock_is_shared_and_monotonic() {
    assert_eq!(advance_time(10, 5), 15);
    assert_eq!(advance_time(u64::MAX - 1, 5), u64::MAX);
    let clock = FakeClock::new(10);
    let clone = clock.clone();
    assert_eq!(clock.advance(15), 25);
    assert_eq!(clone.monotonic_millis(), 25);
}

#[test]
fn fake_proc_keeps_top_level_processes_separate_from_threads() {
    let task = |pid: u32| ProcessInfo {
        identity: ProcessIdentity { pid, start_time_ticks: u64::from(pid), uid: 1000 },
        owner_control_safe: true,
        comm: format!("task-{pid}"),
        executable: None,
        desktop_id: None,
    };
    let mut procfs = FakeProc::default();
    procfs.insert_process(task(10));
    procfs.set_threads(10, vec![task(10), task(11), task(12)]);

    assert_eq!(procfs.list_processes().expect("list process leaders"), [10]);
    assert_eq!(procfs.list_threads(10).expect("list process threads"), [10, 11, 12]);
    assert_eq!(procfs.list_threads(99).expect("unknown process"), [99]);
    assert_eq!(procfs.process_identity(12).expect("thread").comm, "task-12");
    procfs.remove_process(10);
    assert!(procfs.list_processes().expect("empty").is_empty());
    assert!(procfs.process_identity(10).is_err());
    assert!(procfs.cpu_times().is_err());
}

#[test]
fn fake_runtime_serves_all_ports() {
    let mut runtime = FakeRuntime::new(
        FakeClock::new(3),
        FakeProc::default(),
        CpuIds::from_ids(&vec![0, 2]),
    );
    assert_eq!(runtime.clock().advance(4), 7);
    assert_eq!(runtime.monotonic_millis(), 7);
    assert_eq!(runtime.online_cpus().unwrap().to_vec(), [0, 2]);
    runtime.set_online_cpus(CpuIds::from_ids(&vec![5]));
    assert_eq!(runtime.online_cpus().unwrap().to_vec(), [5]);
    assert!(runtime.procfs().list_processes().unwrap().is_empty());
}
