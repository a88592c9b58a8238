//! The desktop client: localization, presentation, requests and the connection.

use std::collections::HashMap;

use uperf::api::{
    ActiveWorkload, ApiVersion, AppRule, Capabilities, ClientError, CpuLoad, DaemonStatus,
    FrequencyStatus, HealthStatus, ModeInfo, RunningWorkload, SchedulerStatus, TargetCapability,
    TelemetrySnapshot, ThermalStatus, WorkloadIdentity, ACTIVE_WORKLOAD, THERMAL_GUARD,
};
use uperf::cpuset::CpuIds;
use uperf::gui::client::{
    check_replies, classify_client_error, connection_text, disconnected_refusal, finish_call,
    first_picture_failed, observe_reporter, on_signal, on_unit_state, on_wait_event, plan_command,
    refresh_steps, session_ended, wants_workloads, ActivationFailure, ActivationStep, Call,
    ClientCommand, ConnectionState, ErrorDisposition, FirstFailure, OwnerChange, Plan,
    ReconnectBackoff, Refresh, RequestErrorKind, SessionSignal, UiEvent, WaitEvent, WaitStep,
};
use uperf::gui::format::{
    active_lines, active_workload_line, cgroup_status_text, classify, clear_target_for_workload, closest_index,
    compact_cpu_list, confirmation_text, draft_frequency_bounds, focus_icon, focus_is_obstructed, format_frequency,
    format_load, format_retry_delay, generate_rule_id, matcher_text, mode_position, new_rule,
    parse_workload, reporter_state_is_actionable, rule_line, rule_with_enabled, rule_with_mode,
    running_workload_subtitle, scheduler_status_text,
    selected_window, target_display_name, target_status_text, WorkloadClearTarget,
    INVALID_LIST_POSITION,
};
use uperf::gui::i18n::{
    load_choice, localized_mode_label, localized_protocol_value, resolve_system_language, tr,
    translate, translate_known, Language, LanguageChoice, Localization,
};
use uperf::gui::session::{
    any_override, focus_button, release_ids, shows_workloads, stale_rows, FocusButton, UiAction,
    UiState,
};
use uperf::gui::view_model::{
    format_temperature, frequency_choices, frequency_override, thermal_view, FocusAction,
    FocusState, ReporterState, ViewModel,
};
use uperf::model::HealthIssue;
use zbus::zvariant::{OwnedValue, Str};

fn names(list: &[&str]) -> Vec<String> {
    list.iter().map(|s| (*s).to_owned()).collect()
}

#[test]
fn language_choice_indices_are_stable() {
    assert_eq!(LanguageChoice::from_index(0), Some(LanguageChoice::System));
    assert_eq!(LanguageChoice::from_index(2), Some(LanguageChoice::SimplifiedChinese));
    assert_eq!(LanguageChoice::from_index(3), None);
    assert_eq!(LanguageChoice::SimplifiedChinese.index(), 2);
}

#[test]
fn system_language_recognizes_common_chinese_locale_forms() {
    assert_eq!(
        resolve_system_language(&names(&["zh_CN.UTF-8", "zh", "en"])),
        Language::SimplifiedChinese
    );
    assert_eq!(resolve_system_language(&names(&["en_US.UTF-8", "en"])), Language::English);
    assert_eq!(resolve_system_language(&names(&["ZH-tw"])), Language::SimplifiedChinese);
    assert_eq!(resolve_system_language(&names(&["zhx", "z"])), Language::English);
}

#[test]
fn chinese_catalog_has_an_english_fallback() {
    assert_eq!(translate(Language::SimplifiedChinese, "Dashboard"), "概览");
    assert_eq!(
        translate(Language::SimplifiedChinese, "untranslated protocol value"),
        "untranslated protocol value"
    );
    assert_eq!(translate(Language::English, "Dashboard"), "Dashboard");
    assert_eq!(translate(Language::SimplifiedChinese, "Sensors healthy"), "传感器正常");
    assert_eq!(translate(Language::SimplifiedChinese, "Apps"), "应用");
}

#[test]
fn stored_language_choices_are_read_back() {
    for choice in [
        LanguageChoice::System,
        LanguageChoice::English,
        LanguageChoice::SimplifiedChinese,
    ] {
        assert_eq!(load_choice(Some(choice.config_value())), choice);
    }
    assert_eq!(load_choice(None), LanguageChoice::System);
    assert_eq!(load_choice(Some(" zh-CN\n")), LanguageChoice::SimplifiedChinese);
    let mut session = Localization::initialize(Some("zh-CN"), &names(&["en"]));
    assert_eq!(tr(&session, "Language"), "语言");
    session.save_language_choice(LanguageChoice::English);
    assert_eq!(tr(&session, "Language"), "语言", "a new choice waits for a restart");
}

#[test]
fn messages_and_protocol_values_are_translated() {
    let zh = Language::SimplifiedChinese;
    assert_eq!(translate_known(zh, "PID must be non-zero"), "PID 不能为零");
    assert_eq!(translate_known(zh, "else"), "else");
    assert_eq!(localized_protocol_value(zh, "Boost"), "加速");
    assert_eq!(localized_mode_label(zh, "balanced", "Balanced"), "均衡");
    assert_eq!(localized_mode_label(zh, "custom", "Custom"), "Custom");
}

fn target() -> TargetCapability {
    TargetCapability {
        id: "cpu.policy7".into(),
        kind: "cpufreq".into(),
        label: "CPUs 4, 8".into(),
        cpus: vec![4, 8],
        minimum_hz: 300_000_000,
        maximum_hz: 2_000_000_000,
        available_hz: vec![2_000_000_000, 900_000_000, 300_000_000, 900_000_000],
        can_override: true,
    }
}

#[test]
fn choices_are_dynamic_sorted_and_deduplicated() {
    assert_eq!(frequency_choices(&target()), vec![300_000_000, 900_000_000, 2_000_000_000]);
}

#[test]
fn continuous_targets_still_offer_bounds() {
    let mut continuous = target();
    continuous.available_hz.clear();
    assert_eq!(frequency_choices(&continuous), vec![300_000_000, 2_000_000_000]);
    continuous.minimum_hz = 0;
    assert!(frequency_choices(&continuous).is_empty());
}

#[test]
fn override_rejects_non_opp_and_inverted_ranges() {
    assert!(frequency_override(&target(), 900_000_000, 2_000_000_000).is_ok());
    assert!(frequency_override(&target(), 800_000_000, 2_000_000_000).is_err());
    assert!(frequency_override(&target(), 2_000_000_000, 900_000_000).is_err());
    assert_eq!(
        frequency_override(&target(), 100, 2_000_000_000).unwrap_err(),
        "requested frequencies exceed the advertised hardware bounds"
    );
    let mut fixed = target();
    fixed.can_override = false;
    assert_eq!(
        frequency_override(&fixed, 300_000_000, 900_000_000).unwrap_err(),
        "CPUs 4, 8 does not allow manual overrides"
    );
}

#[test]
fn generic_devfreq_opps_preserve_exact_hertz() {
    let target = TargetCapability {
        id: "gpu.generic".into(),
        kind: "devfreq".into(),
        label: "Generic devfreq".into(),
        cpus: Vec::new(),
        minimum_hz: 1_001,
        maximum_hz: 1_003,
        available_hz: vec![1_003, 1_002, 1_001],
        can_override: true,
    };
    assert_eq!(frequency_choices(&target), vec![1_001, 1_002, 1_003]);
    let request = frequency_override(&target, 1_001, 1_002).expect("exact OPPs");
    assert_eq!(request.min_hz, 1_001);
    assert_eq!(request.max_hz, 1_002);
}

#[test]
fn api_state_is_joined_by_stable_target_id() {
    let capabilities = Capabilities {
        features: vec![THERMAL_GUARD.into(), ACTIVE_WORKLOAD.into()],
        modes: vec![ModeInfo {
            id: "auto".into(),
            display_name: "Automatic".into(),
            description: "Follow policy".into(),
        }],
        targets: vec![target()],
        ..Capabilities::default()
    };
    let status = DaemonStatus {
        mode: "auto".into(),
        frequencies: vec![FrequencyStatus {
            target_id: "cpu.policy7".into(),
            applied_min_hz: 300_000_000,
            applied_max_hz: 900_000_000,
            applied_verified: true,
            ..FrequencyStatus::default()
        }],
        active_workload: ActiveWorkload {
            present: true,
            name: "game".into(),
            ..ActiveWorkload::default()
        },
        ..DaemonStatus::default()
    };

    let view = ViewModel::from_api(Language::English, &capabilities, &status);
    assert_eq!(view.targets[0].capability.cpus, vec![4, 8]);
    assert_eq!(view.targets[0].status.as_ref().expect("status").applied_max_hz, 900_000_000);
    assert!(view.thermal.is_some());
    assert!(view.workload.expect("workload").active.present);
    assert!(view.modes[0].selected);
    assert!(!any_override(&view.targets));
}

#[test]
fn informational_health_issues_are_preserved_even_when_health_is_healthy() {
    let status = DaemonStatus {
        health: HealthStatus {
            state: "healthy".into(),
            summary: "all mandatory components are healthy".into(),
            issues: vec![HealthIssue {
                code: "focus.rejected".into(),
                severity: "info".into(),
                component: "focus".into(),
                message: "focused process is protected".into(),
            }],
            ..HealthStatus::default()
        },
        ..DaemonStatus::default()
    };

    let view = ViewModel::from_api(Language::English, &Capabilities::default(), &status);

    assert_eq!(view.health.summary, "all mandatory components are healthy");
    assert_eq!(view.health.issues.len(), 1);
    assert_eq!(view.health.issues[0].message, "focused process is protected");
    assert_eq!(view.health.issues[0].detail, "info · focus · focus.rejected");
    assert!(view.thermal.is_none());
    assert!(view.workload.is_none());
}

#[test]
fn temperatures_are_rounded_as_doubles() {
    for millicelsius in [0, 1, 49, 50, 51, 150, 250, 350, 45_050, 45_150, 45_350, 99_950, 42_500] {
        for value in [millicelsius, -millicelsius] {
            if value == 0 && millicelsius != 0 {
                continue;
            }
            assert_eq!(
                format_temperature(value),
                format!("{:.1} °C", f64::from(value) / 1_000.0),
                "{value}"
            );
        }
    }
    for value in (50..400_000).step_by(100) {
        assert_eq!(format_temperature(value), format!("{:.1} °C", f64::from(value) / 1_000.0));
    }
    assert_eq!(
        format_temperature(i32::MIN),
        format!("{:.1} °C", f64::from(i32::MIN) / 1_000.0)
    );
}

#[test]
fn loads_are_rounded_as_doubles() {
    for points in 0..=10_000_u16 {
        assert_eq!(format_load(points), format!("{:.0} %", f64::from(points) / 100.0));
    }
}

#[test]
fn thermal_conditions_are_listed() {
    let shown = thermal_view(
        Language::English,
        &ThermalStatus {
            state: "throttled".into(),
            max_temperature_millicelsius: 85_000,
            cap_active: true,
            sensors_stale: true,
        },
    );
    assert_eq!(shown.temperature, "85.0 °C");
    assert_eq!(shown.detail, "safety cap active, sensor data stale");
    let unknown = thermal_view(
        Language::English,
        &ThermalStatus { state: "stale".into(), ..ThermalStatus::default() },
    );
    assert_eq!(unknown.temperature, "Unavailable");
    assert_eq!(unknown.detail, "Sensors healthy");
}

#[test]
fn workload_request_contains_only_a_pid_identity_input() {
    let request = parse_workload("42").expect("valid workload");
    assert_eq!(request.pid, 42);
    assert!(parse_workload("0").is_err());
    assert_eq!(parse_workload("x").unwrap_err(), "PID must be a positive integer");
    assert_eq!(parse_workload(" 7\n").unwrap().pid, 7);
}

#[test]
fn clearing_the_visible_workload_uses_its_published_source() {
    let active = |present: bool, source: &str| ActiveWorkload {
        present,
        source: source.into(),
        ..ActiveWorkload::default()
    };
    assert_eq!(
        clear_target_for_workload(&active(true, "explicit")),
        Some(WorkloadClearTarget::Explicit)
    );
    assert_eq!(
        clear_target_for_workload(&active(true, "focus")),
        Some(WorkloadClearTarget::Focus)
    );
    assert_eq!(
        clear_target_for_workload(&active(true, "future-source")),
        None,
        "unknown sources must not be guessed"
    );
    assert_eq!(
        clear_target_for_workload(&active(false, "focus")),
        None,
        "an absent workload has nothing to clear"
    );
}

#[test]
fn only_a_live_focus_lease_reads_as_success() {
    assert!(!focus_is_obstructed(FocusState::Following));
    assert!(
        !focus_is_obstructed(FocusState::Waiting),
        "waiting for the first report is normal, not a fault"
    );
    for state in [FocusState::Unsupported, FocusState::Rejected, FocusState::Overridden] {
        assert!(
            focus_is_obstructed(state),
            "{state:?} looks enabled but is not steering anything"
        );
    }
}

#[test]
fn every_focus_state_has_its_own_icon() {
    let icons = [
        FocusState::Unsupported,
        FocusState::Following,
        FocusState::Overridden,
        FocusState::Rejected,
        FocusState::Waiting,
    ]
    .map(focus_icon);
    let mut unique = icons.to_vec();
    unique.sort_unstable();
    unique.dedup();
    assert_eq!(unique.len(), icons.len(), "states must stay distinguishable");
}

#[test]
fn only_unresolved_reporter_states_are_polled() {
    assert!(!reporter_state_is_actionable(ReporterState::Enabled));
    for state in [ReporterState::Disabled, ReporterState::Missing, ReporterState::Unknown] {
        assert!(
            reporter_state_is_actionable(state),
            "{state:?} can change without a shell signal reaching us"
        );
    }
}

#[test]
fn frequency_labels_scale_units() {
    assert_eq!(format_frequency(500), "500 Hz");
    assert_eq!(format_frequency(2_803_200_000), "2.80 GHz");
    assert_eq!(format_frequency(1_050_000_000), "1.05 GHz");
    assert_eq!(format_frequency(999_999_999), "999 MHz");
}

#[test]
fn target_names_compact_sparse_cpu_ranges() {
    let target = TargetCapability {
        id: "cpu.example".into(),
        kind: "cpufreq".into(),
        label: "verbose fallback".into(),
        cpus: vec![5, 2, 1, 2, 4],
        ..TargetCapability::default()
    };
    assert_eq!(compact_cpu_list(&target.cpus), "1–2, 4–5");
    assert_eq!(target_display_name(&target), "CPU 1–2, 4–5");
    let gpu = TargetCapability { id: "gpu".into(), ..TargetCapability::default() };
    assert_eq!(target_display_name(&gpu), "GPU");
}

#[test]
fn frequency_draft_never_treats_missing_desired_state_as_zero_hertz() {
    let target = TargetCapability {
        minimum_hz: 300_000_000,
        maximum_hz: 1_800_000_000,
        ..TargetCapability::default()
    };
    let unavailable = FrequencyStatus {
        override_active: true,
        desired_available: false,
        desired_min_hz: 0,
        desired_max_hz: 0,
        ..FrequencyStatus::default()
    };
    assert_eq!(
        draft_frequency_bounds(&target, Some(&unavailable)),
        (target.minimum_hz, target.maximum_hz)
    );

    let active = FrequencyStatus {
        override_active: true,
        desired_available: true,
        desired_min_hz: 600_000_000,
        desired_max_hz: 1_200_000_000,
        ..FrequencyStatus::default()
    };
    assert_eq!(
        draft_frequency_bounds(&target, Some(&active)),
        (600_000_000, 1_200_000_000)
    );
}

#[test]
fn generated_rule_ids_avoid_collisions() {
    let existing = vec![AppRule { id: "gui.rule1".into(), ..AppRule::default() }];
    assert_eq!(generate_rule_id(&existing), "gui.rule2");
    assert_eq!(generate_rule_id(&Vec::new()), "gui.rule1");
}

fn scheduler() -> SchedulerStatus {
    SchedulerStatus {
        enabled: true,
        matched_rule: "game".into(),
        managed_tasks: 4,
        applied_tasks: 3,
        cgroup_class: "foreground".into(),
        systemd_unit: "app-game.scope".into(),
        cgroup_applied: true,
        warning: String::new(),
    }
}

#[test]
fn active_candidate_formats_scheduler_and_cgroup_readback() {
    let workload = RunningWorkload {
        identity: WorkloadIdentity { pid: 42, start_time_ticks: 100, uid: 1000 },
        name: "wine64".into(),
        matched_pattern: "wine".into(),
        active: true,
        scheduler: scheduler(),
    };
    let english = Language::English;

    assert!(running_workload_subtitle(english, &workload)
        .contains("PID 42 · matched wine · active"));
    assert_eq!(scheduler_status_text(english, &scheduler()), "Rule game · 3/4 tasks applied");
    assert_eq!(
        cgroup_status_text(english, &scheduler()),
        "Class foreground · app-game.scope · applied"
    );
}

#[test]
fn scheduler_lines_say_what_is_missing() {
    let english = Language::English;
    let off = SchedulerStatus::default();
    assert_eq!(scheduler_status_text(english, &off), "Disabled by policy");
    assert_eq!(cgroup_status_text(english, &off), "Disabled by policy");
    let pending = SchedulerStatus { enabled: true, ..SchedulerStatus::default() };
    assert_eq!(
        scheduler_status_text(english, &pending),
        "Pending or no matching scheduler rule"
    );
    assert_eq!(cgroup_status_text(english, &pending), "No dedicated unit selected");
    let warned = SchedulerStatus {
        enabled: true,
        warning: "busy".into(),
        cgroup_class: "bg".into(),
        ..SchedulerStatus::default()
    };
    assert_eq!(scheduler_status_text(english, &warned), "No applied rule · busy");
    assert_eq!(cgroup_status_text(english, &warned), "Class bg · no dedicated unit");
}

#[test]
fn lines_show_workloads_rules_and_targets() {
    let english = Language::English;
    let active = ActiveWorkload {
        present: true,
        identity: WorkloadIdentity { pid: 7, start_time_ticks: 1, uid: 1 },
        name: "game".into(),
        effective_mode: "performance".into(),
        source: "focus".into(),
        ..ActiveWorkload::default()
    };
    assert_eq!(
        active_workload_line(english, &active),
        "game · PID 7 · performance · Source: focus"
    );
    assert_eq!(active_workload_line(english, &ActiveWorkload::default()), "None");
    let rule = AppRule { executable: Some("/a".into()), comm_regex: Some("b".into()), ..AppRule::default() };
    assert_eq!(matcher_text(english, &rule), "/a · /b/");
    assert_eq!(matcher_text(english, &AppRule::default()), "any process");
    assert_eq!(target_status_text(english, None), "No fresh state");
    let observed = FrequencyStatus {
        observed_available: true,
        observed_min_hz: 300_000_000,
        observed_max_hz: 1_000_000_000,
        ..FrequencyStatus::default()
    };
    assert_eq!(
        target_status_text(english, Some(&observed)),
        "Automatic control · Current allowed range 300 MHz – 1.00 GHz"
    );
    let stale = FrequencyStatus {
        observed_available: true,
        stale: true,
        applied_verified: true,
        applied_min_hz: 1,
        applied_max_hz: 2,
        override_active: true,
        ..FrequencyStatus::default()
    };
    assert_eq!(
        target_status_text(english, Some(&stale)),
        "Manual limit active · Last confirmed range 1 Hz – 2 Hz · stale"
    );
}

#[test]
fn selections_become_rules_and_windows() {
    let modes = names(&["auto", "performance"]);
    let rule = new_rule(" /usr/bin/game ", "", &modes, 1, &Vec::new()).unwrap();
    assert_eq!(rule.executable.as_deref(), Some("/usr/bin/game"));
    assert_eq!(rule.comm_regex, None);
    assert_eq!(rule.mode, "performance");
    assert_eq!(rule.priority, 10);
    assert_eq!(
        new_rule(" ", "", &modes, 0, &Vec::new()).unwrap_err(),
        "Provide an executable path or a process-name regex"
    );
    assert_eq!(
        new_rule("a", "", &modes, 2, &Vec::new()).unwrap_err(),
        "Select a mode for the rule"
    );
    assert_eq!(selected_window(&vec![1, 2], 0, 1), Ok((1, 2)));
    assert_eq!(selected_window(&vec![1, 2], 2, 1), Err("Select a minimum frequency"));
    assert_eq!(selected_window(&vec![1, 2], 0, 9), Err("Select a maximum frequency"));
    assert_eq!(closest_index(&vec![10, 20, 30], 25), 1);
    assert_eq!(closest_index(&Vec::new(), 25), INVALID_LIST_POSITION);
}

#[test]
fn reconnect_backoff_is_exponential_bounded_and_resettable() {
    let mut backoff = ReconnectBackoff::new();
    let delays: Vec<_> = (0..7).map(|_| backoff.next_delay()).collect();
    assert_eq!(delays, vec![250, 500, 1_000, 2_000, 4_000, 8_000, 8_000]);
    backoff.reset();
    assert_eq!(backoff.next_delay(), 250);
    assert_eq!(format_retry_delay(Language::English, 250), "250 ms");
    assert_eq!(format_retry_delay(Language::English, 8_000), "8 s");
}

#[test]
fn daemon_absence_is_a_connection_failure() {
    let error = ClientError::Remote {
        name: "org.freedesktop.DBus.Error.ServiceUnknown".into(),
        message: "name has no owner".into(),
    };
    assert_eq!(classify_client_error(&error), ErrorDisposition::ConnectionLost);
    assert_eq!(
        classify_client_error(&ClientError::Transport("gone".into())),
        ErrorDisposition::ConnectionLost
    );
}

#[test]
fn permission_and_request_errors_do_not_masquerade_as_disconnects() {
    let denied = ClientError::Remote {
        name: "org.uperflinux.Daemon2.Error.NotAuthorized".into(),
        message: "authorization required".into(),
    };
    assert_eq!(
        classify_client_error(&denied),
        ErrorDisposition::Request(RequestErrorKind::NotAuthorized)
    );

    let invalid = ClientError::InvalidRequest("bad mode".into());
    assert_eq!(
        classify_client_error(&invalid),
        ErrorDisposition::Request(RequestErrorKind::InvalidRequest)
    );

    let incompatible = ClientError::IncompatibleApi {
        client: ApiVersion { major: 1, minor: 0 },
        server: ApiVersion { major: 2, minor: 0 },
    };
    assert_eq!(
        classify_client_error(&incompatible),
        ErrorDisposition::Request(RequestErrorKind::IncompatibleApi)
    );
    let other = ClientError::Remote { name: "x.Conflict".into(), message: String::new() };
    assert_eq!(
        classify_client_error(&other),
        ErrorDisposition::Request(RequestErrorKind::Rejected)
    );
}

/// The number that a shell gives as the state of an extension.
fn state_number(value: &OwnedValue) -> Option<i64> {
    if let Ok(state) = f64::try_from(value) {
        return Some(state as i64);
    }
    if let Ok(state) = i64::try_from(value) {
        return Some(state);
    }
    if let Ok(state) = i32::try_from(value) {
        return Some(i64::from(state));
    }
    u32::try_from(value).ok().map(i64::from)
}

fn reply(info: &HashMap<String, OwnedValue>) -> ReporterState {
    classify(info.is_empty(), info.get("state").and_then(state_number))
}

fn info(state: OwnedValue) -> HashMap<String, OwnedValue> {
    HashMap::from([("state".to_owned(), state)])
}

#[test]
fn an_empty_reply_means_the_reporter_is_not_installed() {
    assert_eq!(reply(&HashMap::new()), ReporterState::Missing);
}

#[test]
fn shell_reports_the_state_as_a_double() {
    assert_eq!(reply(&info(OwnedValue::from(1.0_f64))), ReporterState::Enabled);
    assert_eq!(reply(&info(OwnedValue::from(2.0_f64))), ReporterState::Disabled);
}

#[test]
fn integer_states_are_accepted_too() {
    assert_eq!(reply(&info(OwnedValue::from(8_u32))), ReporterState::Enabled);
    assert_eq!(
        reply(&info(OwnedValue::from(3_i32))),
        ReporterState::Disabled,
        "an errored extension is installed but not reporting"
    );
}

#[test]
fn an_installed_extension_without_a_state_field_stays_unknown() {
    let info = HashMap::from([(
        "uuid".to_owned(),
        OwnedValue::from(Str::from_static("focus@uperflinux.org")),
    )]);
    assert_eq!(reply(&info), ReporterState::Unknown);
}

#[test]
fn commands_become_calls() {
    assert!(matches!(plan_command(ClientCommand::EnableAndStartService), Plan::Service));
    assert!(matches!(
        plan_command(ClientCommand::ClearWorkload(WorkloadClearTarget::Focus)),
        Plan::Daemon {
            call: Call::ClearForegroundProcess,
            refresh_rules: false,
            refresh_workloads: true
        }
    ));
    assert!(matches!(
        plan_command(ClientCommand::RemoveAppRule("r".into())),
        Plan::Daemon { call: Call::RemoveAppRule(_), refresh_rules: true, .. }
    ));
    assert_eq!(
        refresh_steps(true, true),
        [Refresh::Status, Refresh::AppRules, Refresh::RunningWorkloads]
    );
    let lost = (ClientError::Transport("gone".into()), "gone".to_owned());
    assert_eq!(finish_call(Err(lost), false, false).unwrap_err(), "gone");
    let refused = (ClientError::InvalidRequest("bad".into()), "bad".to_owned());
    let (event, steps) = finish_call(Err(refused), true, false).unwrap();
    assert!(matches!(
        event,
        UiEvent::RequestError { kind: RequestErrorKind::InvalidRequest, .. }
    ));
    assert_eq!(steps, [Refresh::Status, Refresh::AppRules]);
    let (event, _) = finish_call(Ok("done".into()), false, false).unwrap();
    assert!(matches!(event, UiEvent::Notice(text) if text == "done"));
}

#[test]
fn sessions_end_and_resume() {
    assert_eq!(
        on_signal(SessionSignal::Owner(OwnerChange::Left)).unwrap_err(),
        "daemon left the system bus"
    );
    assert_eq!(
        on_signal(SessionSignal::State { ended: true }).unwrap_err(),
        "state signal stream ended"
    );
    let step = on_signal(SessionSignal::Capabilities { ended: false }).unwrap();
    assert_eq!(
        step.refresh,
        [Refresh::Capabilities, Refresh::AppRules, Refresh::RunningWorkloads]
    );
    let step =
        on_signal(SessionSignal::Telemetry { snapshot: Some(Err("short".into())) }).unwrap();
    assert!(matches!(
        step.event,
        Some(UiEvent::RequestError { kind: RequestErrorKind::Rejected, message })
            if message == "invalid telemetry signal: short"
    ));
    let mut backoff = ReconnectBackoff { next: 4_000 };
    let (event, delay) = session_ended(&mut backoff, false, Err("lost".into())).unwrap();
    assert_eq!(delay, 4_000);
    assert!(matches!(
        event,
        UiEvent::Connection(ConnectionState::Reconnecting { delay: 4_000, .. })
    ));
    let (_, delay) = session_ended(&mut backoff, true, Err("lost".into())).unwrap();
    assert_eq!(delay, 250);
    assert!(session_ended(&mut backoff, true, Ok(())).is_none());
    assert!(matches!(
        first_picture_failed(&ClientError::Transport("x".into()), "x".into()),
        FirstFailure::Retry(_)
    ));
    assert!(matches!(
        first_picture_failed(&ClientError::InvalidRequest("x".into()), "x".into()),
        FirstFailure::GiveUp { .. }
    ));
    assert!(!wants_workloads(&Capabilities::default()));
}

#[test]
fn waiting_clients_refuse_commands_and_start_the_service() {
    assert_eq!(on_wait_event(WaitEvent::TimerFired), WaitStep::Connect);
    assert_eq!(
        on_wait_event(WaitEvent::Command { starts_service: true }),
        WaitStep::StartService
    );
    assert_eq!(
        on_wait_event(WaitEvent::Command { starts_service: false }),
        WaitStep::ShowRefusal
    );
    assert_eq!(on_wait_event(WaitEvent::ServiceDone { succeeded: true }), WaitStep::Connect);
    assert_eq!(on_wait_event(WaitEvent::RefusalShown { seen: false }), WaitStep::Stop);
    assert!(matches!(
        disconnected_refusal(Language::English),
        UiEvent::RequestError { message, .. }
            if message == "daemon disconnected before the command was sent"
    ));
    assert_eq!(check_replies(false, true), Err(ActivationFailure::NoEnableReply));
    assert_eq!(check_replies(true, false), Err(ActivationFailure::NoStartReply));
    assert_eq!(on_unit_state("active", 49), ActivationStep::Active);
    assert_eq!(on_unit_state("activating", 48), ActivationStep::Again);
    assert_eq!(
        on_unit_state("activating", 49),
        ActivationStep::Failed(ActivationFailure::TimedOut)
    );
    assert_eq!(
        ActivationFailure::UnitFailed.message(),
        "uperf-linux.service failed to start"
    );
    let mut state = ReporterState::Unknown;
    assert!(observe_reporter(&mut state, ReporterState::Enabled));
    assert!(!observe_reporter(&mut state, ReporterState::Enabled));
}

fn ui() -> UiState {
    UiState::new(Capabilities::default(), DaemonStatus::default())
}

#[test]
fn high_rate_values_are_repainted_together() {
    let mut state = ui();
    let telemetry = TelemetrySnapshot {
        cpu_loads: vec![CpuLoad { cpu_id: 3, utilization_basis_points: 5_000 }],
        thermal: ThermalStatus { state: "normal".into(), ..ThermalStatus::default() },
        ..TelemetrySnapshot::default()
    };
    let first = state.handle(Language::English, UiEvent::Telemetry(telemetry));
    assert!(matches!(first.as_slice(), [UiAction::ScheduleRefresh]));
    let status = DaemonStatus { mode: "auto".into(), ..DaemonStatus::default() };
    assert!(state.handle(Language::English, UiEvent::Status(status)).is_empty());
    let painted = state.apply_runtime_update();
    assert!(matches!(
        painted.as_slice(),
        [UiAction::RebuildCpuLoads(_), UiAction::UpdateStatus]
    ));
    assert_eq!(state.status.mode, "auto");
    assert_eq!(state.status.thermal.state, "normal");
    assert!(state.apply_runtime_update().is_empty());
}

#[test]
fn disconnection_disables_controls_and_drops_pending_values() {
    let mut state = ui();
    let actions =
        state.handle(Language::English, UiEvent::Connection(ConnectionState::Connected));
    assert!(state.may_send());
    assert!(matches!(actions[0], UiAction::EnableControls(true)));
    state.handle(Language::English, UiEvent::Status(DaemonStatus::default()));
    let actions = state.handle(
        Language::English,
        UiEvent::Connection(ConnectionState::Reconnecting { delay: 500, reason: "lost".into() }),
    );
    assert!(!state.may_send());
    assert!(state.pending_status.is_none());
    assert!(matches!(
        &actions[3],
        UiAction::ShowConnection(text)
            if text == "Disconnected · retrying in 500 ms · lost"
    ));
    assert_eq!(
        connection_text(Language::English, &ConnectionState::Unavailable("x".into())),
        "Unavailable · x"
    );
    assert!(state.begin_service_start());
    assert!(!state.begin_service_start());
    let actions =
        state.handle(Language::English, UiEvent::ServiceActivationFinished(Err("no".into())));
    assert!(matches!(
        &actions[2],
        UiAction::Toast(text) if text == "Service activation was cancelled or denied: no"
    ));
}

#[test]
fn rows_of_missing_cpus_are_stale() {
    let rows = CpuIds::from_ids(&vec![0, 4, 7]);
    let loads = vec![CpuLoad { cpu_id: 4, utilization_basis_points: 0 }];
    assert_eq!(stale_rows(&rows, &loads).to_vec(), [0, 7]);
    assert_eq!(
        focus_button(FocusAction::ClearExplicit, false),
        FocusButton { visible: true, suggested: false, enabled: false }
    );
    assert!(focus_button(FocusAction::EnableReporter, false).enabled);
    assert!(!focus_button(FocusAction::Nothing, true).visible);
}

#[test]
fn rule_rows_offer_changes_only() {
    let english = Language::English;
    let modes = names(&["auto", "performance"]);
    let rule = AppRule { mode: "auto".into(), priority: -3, ..AppRule::default() };
    assert_eq!(rule_line(english, &rule), "any process · priority -3");
    assert_eq!(mode_position(&modes, "performance"), Some(1));
    assert_eq!(mode_position(&modes, "other"), None);
    assert_eq!(rule_with_mode(&rule, &modes, 1).unwrap().mode, "performance");
    assert!(rule_with_mode(&rule, &modes, 0).is_none());
    assert!(rule_with_mode(&rule, &modes, 9).is_none());
    assert!(rule_with_enabled(&rule, true).unwrap().enabled);
    assert!(rule_with_enabled(&rule, false).is_none());
}

#[test]
fn the_active_workload_decides_the_scheduler_lines() {
    let english = Language::English;
    let idle = RunningWorkload::default();
    let active = RunningWorkload {
        active: true,
        scheduler: scheduler(),
        ..RunningWorkload::default()
    };
    assert_eq!(
        active_lines(english, &vec![RunningWorkload::default(), active]),
        (
            "Rule game · 3/4 tasks applied".to_owned(),
            "Class foreground · app-game.scope · applied".to_owned()
        )
    );
    assert_eq!(active_lines(english, &vec![idle]).0, "No active workload");
    assert!(!shows_workloads(&Capabilities::default(), &Vec::new()));
    assert_eq!(
        confirmation_text(english, "GPU", 1, 2),
        "GPU: 1 Hz – 2 Hz. The kernel still selects the actual frequency, while thermal and hardware limits remain authoritative."
    );
    let capabilities = Capabilities { targets: vec![target()], ..Capabilities::default() };
    let view = ViewModel::from_api(english, &capabilities, &DaemonStatus::default());
    assert_eq!(release_ids(&view.targets), ["cpu.policy7"]);
}

#[test]
fn translating_twice_changes_nothing() {
    for text in ["Active", "Connecting…", "Systemd cgroup", "no dedicated unit", "not in it"] {
        for language in [Language::English, Language::SimplifiedChinese] {
            let once = translate(language, text);
            assert_eq!(translate(language, once), once);
        }
        assert_eq!(translate(Language::English, text), text);
    }
    assert_eq!(translate(Language::SimplifiedChinese, "Active"), "已启用");
}
