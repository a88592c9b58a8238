//! Unit properties and identities, and the transaction on a unit.

use tokio::sync::mpsc::error::TrySendError;
use tokio::sync::mpsc::{channel, Sender};
use uperf::cpuset::CpuIds;
use uperf::linux::scheduler::parse_cpu_list;
use uperf::linux::systemd::{
    decode_cpu_mask, domain_to_raw, encode_cpu_mask, handed_over, raw_to_domain,
    select_instance_identity, unit_matches_desired, unit_process_ids, validate_desired_properties,
    validate_unit_name, Handover, RawUnitProperties, UnitAction, UnitTransaction, UNSET_CPU_WEIGHT,
};
use uperf::platform::{
    IoKind, PlatformError, PlatformResult, SystemdClient, SystemdUnitInstanceKey,
    SystemdUnitProperties,
};

fn cpus(ids: &[u32]) -> CpuIds {
    CpuIds::from_ids(&ids.to_vec())
}

/// Hands a request to a queue of the owner, as the client does.
fn hand_over(requests: &Sender<&'static str>, unit: &'static str) -> Handover {
    match requests.try_send(unit) {
        Ok(()) => Handover::Sent,
        Err(TrySendError::Full(_)) => Handover::Full,
        Err(TrySendError::Closed(_)) => Handover::Closed,
    }
}

#[test]
fn disconnected_owner_fails_without_falling_back_to_another_runtime() {
    let (requests, receiver) = channel(1);
    drop(receiver);
    let error = handed_over("read unit processes", hand_over(&requests, "game.scope"))
        .expect_err("closed owner queue must fail");
    assert!(matches!(
        error,
        PlatformError::Io { source, .. } if source.kind == IoKind::BrokenPipe
    ));
}

#[test]
fn full_owner_queue_fails_without_blocking_send() {
    let (requests, _receiver) = channel(1);
    let queued = hand_over(&requests, "queued.scope");
    assert!(handed_over("read unit processes", queued).is_ok());
    let error = handed_over("read unit processes", hand_over(&requests, "game.scope"))
        .expect_err("full owner queue must fail");
    assert!(matches!(
        error,
        PlatformError::Io { source, .. } if source.kind == IoKind::WouldBlock
    ));
}

/// A client that knows the units of processes and nothing else.
struct NamesOnly {
    unit: Result<Option<&'static str>, &'static str>,
}

impl SystemdClient for NamesOnly {
    fn unit_for_process(&self, _process: u32) -> PlatformResult<Option<String>> {
        match self.unit {
            Ok(unit) => Ok(unit.map(str::to_owned)),
            Err(what) => Err(PlatformError::Disappeared(what.to_owned())),
        }
    }

    fn unit_processes(&self, _unit: &str) -> PlatformResult<Vec<u32>> {
        Ok(Vec::new())
    }

    fn read_unit_properties(&self, _unit: &str) -> PlatformResult<SystemdUnitProperties> {
        Err(PlatformError::Unsupported("unit properties"))
    }

    fn write_unit_properties(
        &self,
        _unit: &str,
        _desired: &SystemdUnitProperties,
    ) -> PlatformResult<SystemdUnitProperties> {
        Err(PlatformError::Unsupported("unit properties"))
    }
}

#[test]
fn a_client_without_instances_says_so_where_there_is_a_unit() {
    let known = NamesOnly { unit: Ok(Some("game.scope")) };
    assert!(matches!(
        known.unit_instance_for_process(7),
        Err(PlatformError::Unsupported("stable systemd unit instance identity"))
    ));
    let none = NamesOnly { unit: Ok(None) };
    assert!(matches!(none.unit_instance_for_process(7), Ok(None)));
    let gone = NamesOnly { unit: Err("process 7") };
    assert!(matches!(
        gone.unit_instance_for_process(7),
        Err(PlatformError::Disappeared(what)) if what == "process 7"
    ));
}

#[test]
fn a_unit_that_shows_something_else_is_set_back() {
    let online = parse_cpu_list("online", "0-7\n");
    let desired = SystemdUnitProperties { cpu_weight: Some(200), allowed_cpus: Some(cpus(&[4, 7])) };
    let mut change = UnitTransaction::begin("game.scope", &desired, "online", &online).unwrap();
    let original = RawUnitProperties { cpu_weight: 100, allowed_cpus: Vec::new() };
    assert!(matches!(
        change.original_read(Ok(RawUnitProperties { cpu_weight: 100, allowed_cpus: Vec::new() })),
        UnitAction::Write(raw) if raw.cpu_weight == 200
    ));
    assert!(matches!(change.applied(Ok(())), UnitAction::Read));
    let shown = RawUnitProperties { cpu_weight: 150, allowed_cpus: Vec::new() };
    assert!(matches!(
        change.read_back(Ok(shown)),
        UnitAction::Write(raw) if raw == original
    ));
    match change.undone(Ok(())) {
        UnitAction::Finish(Err(e)) => assert!(e.message().contains(
            "systemd readback differs from request: requested SystemdUnitProperties { cpu_weight: \
             Some(200), allowed_cpus: Some({4, 7}) }, got SystemdUnitProperties { cpu_weight: \
             Some(150), allowed_cpus: None }"
        )),
        other => panic!("the change fails: {other:?}"),
    }
}

#[test]
fn cpu_mask_round_trip_supports_sparse_high_ids() {
    let expected = cpus(&[0, 7, 8, 65, 511]);
    let bytes = encode_cpu_mask(&expected);
    assert_eq!(bytes.len(), 64);
    assert_eq!(decode_cpu_mask("game.scope", &bytes).unwrap(), expected);
}

#[test]
fn empty_mask_is_the_systemd_unset_representation() {
    let properties = raw_to_domain(
        "game.scope",
        &RawUnitProperties { cpu_weight: 100, allowed_cpus: Vec::new() },
    )
    .unwrap();
    assert_eq!(properties.cpu_weight, Some(100));
    assert_eq!(properties.allowed_cpus, None);
}

#[test]
fn none_encodes_an_explicit_property_reset() {
    let raw = domain_to_raw(&SystemdUnitProperties { cpu_weight: None, allowed_cpus: None });
    assert_eq!(
        raw,
        RawUnitProperties { cpu_weight: UNSET_CPU_WEIGHT, allowed_cpus: Vec::new() }
    );
    assert_eq!(
        raw_to_domain("game.scope", &raw).expect("decode reset"),
        SystemdUnitProperties { cpu_weight: None, allowed_cpus: None }
    );
}

#[test]
fn desired_none_does_not_match_an_existing_property() {
    assert!(!unit_matches_desired(
        &SystemdUnitProperties { cpu_weight: Some(100), allowed_cpus: Some(cpus(&[0])) },
        &SystemdUnitProperties { cpu_weight: None, allowed_cpus: None },
    ));
}

#[test]
fn rejects_invalid_or_unsupported_unit_names() {
    assert!(validate_unit_name("../../evil.service").is_err());
    assert!(validate_unit_name("game.mount").is_err());
    assert!(validate_unit_name("game scope.scope").is_err());
    assert_eq!(
        validate_unit_name("app-flatpak-game.scope").unwrap(),
        "org.freedesktop.systemd1.Scope"
    );
}

#[test]
fn invocation_id_is_preferred_over_control_group() {
    let first =
        select_instance_identity("game.scope", Some(&[1; 16]), Some("/user.slice/game.scope"))
            .unwrap();
    let second =
        select_instance_identity("game.scope", Some(&[2; 16]), Some("/user.slice/game.scope"))
            .unwrap();
    assert_eq!(first.key, SystemdUnitInstanceKey::InvocationId([1; 16]));
    assert_ne!(first, second, "same-name activations must be distinct");
}

#[test]
fn control_group_is_used_when_invocation_id_is_unavailable() {
    let missing =
        select_instance_identity("game.scope", None, Some("/user.slice/game.scope")).unwrap();
    let zero =
        select_instance_identity("game.scope", Some(&[0; 16]), Some("/user.slice/game.scope"))
            .unwrap();
    assert_eq!(
        missing.key,
        SystemdUnitInstanceKey::ControlGroup("/user.slice/game.scope".to_owned())
    );
    assert_eq!(missing, zero);
}

#[test]
fn rejects_malformed_instance_identity() {
    assert!(
        select_instance_identity("game.scope", Some(&[1; 15]), Some("/user.slice/game.scope"))
            .is_err()
    );
    assert!(select_instance_identity("game.scope", None, None).is_err());
    for control_group in [
        "",
        "/",
        "user.slice/game.scope",
        "/user.slice//game.scope",
        "/user.slice/../game.scope",
    ] {
        assert!(
            select_instance_identity("game.scope", None, Some(control_group)).is_err(),
            "{control_group:?} must be rejected"
        );
    }
}

#[test]
fn rejects_invalid_weight_and_empty_cpuset_without_dbus() {
    let online = parse_cpu_list("online", "0-7\n");
    let refused = |cpu_weight, allowed_cpus| {
        validate_desired_properties(
            &SystemdUnitProperties { cpu_weight, allowed_cpus },
            "online",
            &online,
        )
        .is_err()
    };
    assert!(refused(Some(0), None));
    assert!(refused(None, Some(CpuIds::new())));
    assert!(refused(Some(100), Some(cpus(&[0, 9]))));
    assert!(!refused(Some(100), Some(cpus(&[0, 7]))));
}

#[test]
fn unit_processes_are_sorted_and_distinct() {
    assert_eq!(unit_process_ids(&vec![9, 3, 9, 1]), [1, 3, 9]);
}
