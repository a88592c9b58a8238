//! The touch state machine and the bookkeeping of touch devices.

use uperf::linux::input::{
    discover_event_nodes, feed_events, is_event_node, map_evdev_event, nonzero_duration,
    single_slot_snapshot, touch_axes, AxisInfo, EventNodeIdentity, EvdevInputSource, KernelEvent,
    NodeEntry, NodeState, Opened, Polled, Visit, ABS_MT_POSITION_X, ABS_MT_POSITION_Y, ABS_MT_SLOT,
    ABS_MT_TRACKING_ID,
};
use uperf::linux::touch::{
    AxisRange, GestureConfig, RawTouchEvent, TouchAxes, TouchConfigurationError, TouchStateMachine,
};
use uperf::platform::{
    AxisShare, InputDeviceId, InputEvent, IoFailure, IoKind, Point, TouchContactId,
};
use uperf::table::Table;

const DEVICE: InputDeviceId = InputDeviceId(41);

fn axes() -> TouchAxes {
    TouchAxes {
        x: AxisRange::new(-100, 900).unwrap(),
        y: AxisRange::new(50, 550).unwrap(),
        slots: AxisRange::new(0, 9).unwrap(),
    }
}

fn config(swipe_distance: f64, edge_width: f64) -> GestureConfig {
    GestureConfig::new(
        (swipe_distance * 1e9).round() as u32,
        (edge_width * 1e9).round() as u32,
    )
    .unwrap()
}

fn feed(machine: &mut TouchStateMachine, events: &[RawTouchEvent]) -> Vec<InputEvent> {
    events.iter().flat_map(|event| machine.handle(*event)).collect()
}

fn share(s: AxisShare) -> f64 {
    f64::from(s.offset) / f64::from(s.span)
}

fn distance(from: Point, to: Point) -> f64 {
    (share(from.x) - share(to.x)).hypot(share(from.y) - share(to.y))
}

fn assert_close(actual: f64, expected: f64) {
    assert!((actual - expected).abs() < 1.0e-9, "{actual} != {expected}");
}

#[test]
fn normalizes_each_devices_advertised_ranges() {
    let mut machine = TouchStateMachine::new(DEVICE, axes(), config(0.2, 0.05));
    let output = feed(
        &mut machine,
        &[
            RawTouchEvent::TrackingId(7),
            RawTouchEvent::PositionX(400),
            RawTouchEvent::PositionY(175),
            RawTouchEvent::SyncReport,
        ],
    );
    assert_eq!(output.len(), 1);
    let InputEvent::TouchDown { contact, at } = output[0] else {
        panic!("expected touch down");
    };
    assert_eq!(contact, TouchContactId::new(DEVICE, 7));
    assert_close(share(at.x), 0.5);
    assert_close(share(at.y), 0.25);
}

#[test]
fn tracks_multiple_slots_independently() {
    let mut machine = TouchStateMachine::new(DEVICE, axes(), config(0.2, 0.05));
    let downs = feed(
        &mut machine,
        &[
            RawTouchEvent::Slot(0),
            RawTouchEvent::TrackingId(10),
            RawTouchEvent::PositionX(-100),
            RawTouchEvent::PositionY(50),
            RawTouchEvent::Slot(3),
            RawTouchEvent::TrackingId(11),
            RawTouchEvent::PositionX(900),
            RawTouchEvent::PositionY(550),
            RawTouchEvent::SyncReport,
        ],
    );
    assert_eq!(downs.len(), 2);
    assert_eq!(machine.active_contacts(), 2);

    let release = feed(
        &mut machine,
        &[RawTouchEvent::Slot(3), RawTouchEvent::TrackingId(-1), RawTouchEvent::SyncReport],
    );
    assert_eq!(release.len(), 1);
    let InputEvent::TouchUp { contact, at } = release[0] else {
        panic!("expected touch up");
    };
    assert_eq!(contact, TouchContactId::new(DEVICE, 11));
    assert_close(share(at.x), 1.0);
    assert_close(share(at.y), 1.0);
    assert_eq!(machine.active_contacts(), 1);
}

#[test]
fn emits_gesture_for_maximum_swipe_even_if_contact_returns() {
    let mut machine = TouchStateMachine::new(DEVICE, axes(), config(0.25, 0.05));
    let _ = feed(
        &mut machine,
        &[
            RawTouchEvent::TrackingId(1),
            RawTouchEvent::PositionX(0),
            RawTouchEvent::PositionY(300),
            RawTouchEvent::SyncReport,
        ],
    );
    let _ = feed(
        &mut machine,
        &[
            RawTouchEvent::PositionX(700),
            RawTouchEvent::SyncReport,
            RawTouchEvent::PositionX(0),
            RawTouchEvent::SyncReport,
        ],
    );
    let release =
        feed(&mut machine, &[RawTouchEvent::TrackingId(-1), RawTouchEvent::SyncReport]);
    assert_eq!(release.len(), 2);
    assert!(matches!(release[0], InputEvent::TouchUp { .. }));
    let InputEvent::Gesture { from, to, .. } = release[1] else {
        panic!("expected gesture");
    };
    assert_close(distance(from, to), 0.7);
}

#[test]
fn recognizes_short_inward_edge_gesture() {
    let custom_axes = TouchAxes {
        x: AxisRange::new(0, 1_000).unwrap(),
        y: AxisRange::new(0, 2_000).unwrap(),
        slots: AxisRange::new(0, 4).unwrap(),
    };
    let mut machine = TouchStateMachine::new(DEVICE, custom_axes, config(0.3, 0.05));
    let output = feed(
        &mut machine,
        &[
            RawTouchEvent::TrackingId(5),
            RawTouchEvent::PositionX(10),
            RawTouchEvent::PositionY(1_000),
            RawTouchEvent::SyncReport,
            RawTouchEvent::PositionX(80),
            RawTouchEvent::SyncReport,
            RawTouchEvent::TrackingId(-1),
            RawTouchEvent::SyncReport,
        ],
    );
    assert_eq!(output.len(), 3);
    assert!(matches!(output[0], InputEvent::TouchDown { .. }));
    assert!(matches!(output[1], InputEvent::TouchUp { .. }));
    let InputEvent::Gesture { from, to, .. } = output[2] else {
        panic!("expected edge gesture");
    };
    assert_close(distance(from, to), 0.07);
}

#[test]
fn a_swipe_short_of_the_threshold_is_no_gesture() {
    let plain = TouchAxes {
        x: AxisRange::new(0, 1_000).unwrap(),
        y: AxisRange::new(0, 1_000).unwrap(),
        slots: AxisRange::new(0, 0).unwrap(),
    };
    let stroke = |end: i32| {
        let mut machine = TouchStateMachine::new(DEVICE, plain, config(0.2, 0.0));
        feed(
            &mut machine,
            &[
                RawTouchEvent::TrackingId(5),
                RawTouchEvent::PositionX(500),
                RawTouchEvent::PositionY(500),
                RawTouchEvent::SyncReport,
                RawTouchEvent::PositionX(end),
                RawTouchEvent::TrackingId(-1),
                RawTouchEvent::SyncReport,
            ],
        )
        .len()
    };
    assert_eq!(stroke(699), 2);
    assert_eq!(stroke(700), 3);
    assert_eq!(stroke(300), 3);
}

#[test]
fn widest_axes_do_not_overflow() {
    let wide = TouchAxes {
        x: AxisRange::new(i32::MIN, i32::MAX).unwrap(),
        y: AxisRange::new(i32::MIN, i32::MAX).unwrap(),
        slots: AxisRange::new(0, 0).unwrap(),
    };
    let mut machine = TouchStateMachine::new(DEVICE, wide, config(1.0, 0.0));
    let output = feed(
        &mut machine,
        &[
            RawTouchEvent::TrackingId(5),
            RawTouchEvent::PositionX(i32::MIN),
            RawTouchEvent::PositionY(i32::MIN),
            RawTouchEvent::SyncReport,
            RawTouchEvent::PositionX(i32::MAX),
            RawTouchEvent::PositionY(i32::MAX),
            RawTouchEvent::TrackingId(-1),
            RawTouchEvent::SyncReport,
        ],
    );
    assert_eq!(output.len(), 3);
}

#[test]
fn dropped_frame_clears_slots_and_ignores_until_report() {
    let mut machine = TouchStateMachine::new(DEVICE, axes(), config(0.2, 0.05));
    let _ = feed(
        &mut machine,
        &[
            RawTouchEvent::TrackingId(1),
            RawTouchEvent::PositionX(0),
            RawTouchEvent::PositionY(300),
            RawTouchEvent::SyncReport,
        ],
    );
    assert_eq!(machine.active_contacts(), 1);

    assert_eq!(
        machine.handle(RawTouchEvent::SyncDropped),
        vec![InputEvent::Resync { device: Some(DEVICE) }]
    );
    assert!(machine.is_desynchronized());
    assert_eq!(machine.active_contacts(), 0);
    let ignored = feed(
        &mut machine,
        &[
            RawTouchEvent::TrackingId(2),
            RawTouchEvent::PositionX(900),
            RawTouchEvent::PositionY(550),
            RawTouchEvent::SyncReport,
        ],
    );
    assert!(ignored.is_empty());
    assert!(!machine.is_desynchronized());

    let resumed = feed(
        &mut machine,
        &[
            RawTouchEvent::TrackingId(3),
            RawTouchEvent::PositionX(900),
            RawTouchEvent::PositionY(550),
            RawTouchEvent::SyncReport,
        ],
    );
    assert_eq!(resumed.len(), 1);
    assert!(matches!(resumed[0], InputEvent::TouchDown { .. }));
}

#[test]
fn single_slot_snapshot_rebuilds_held_contact_after_drop_boundary() {
    let single_slot_axes = TouchAxes {
        x: AxisRange::new(0, 1_000).unwrap(),
        y: AxisRange::new(0, 2_000).unwrap(),
        slots: AxisRange::new(0, 0).unwrap(),
    };
    let mut machine = TouchStateMachine::new(DEVICE, single_slot_axes, config(0.2, 0.05));
    let _ = feed(
        &mut machine,
        &[
            RawTouchEvent::TrackingId(17),
            RawTouchEvent::PositionX(100),
            RawTouchEvent::PositionY(200),
            RawTouchEvent::SyncReport,
        ],
    );
    let reset = machine.handle(RawTouchEvent::SyncDropped);
    assert!(matches!(reset.as_slice(), [InputEvent::Resync { device: Some(DEVICE) }]));
    assert!(machine.handle(RawTouchEvent::SyncReport).is_empty());

    let rebuilt = machine.rebuild_single_slot(17, 400, 1_000);
    assert_eq!(machine.active_contacts(), 1);
    assert!(matches!(
        rebuilt.as_slice(),
        [InputEvent::TouchDown {
            contact: TouchContactId { device: DEVICE, tracking_id: 17 },
            ..
        }]
    ));
    assert!(machine.rebuild_single_slot(-1, 0, 0).is_empty());
    assert_eq!(machine.active_contacts(), 0);
}

#[test]
fn tracking_ids_are_scoped_to_the_open_device_instance() {
    let mut first = TouchStateMachine::new(InputDeviceId::new(1), axes(), config(0.2, 0.05));
    let mut second = TouchStateMachine::new(InputDeviceId::new(2), axes(), config(0.2, 0.05));
    let events = [
        RawTouchEvent::TrackingId(9),
        RawTouchEvent::PositionX(100),
        RawTouchEvent::PositionY(100),
        RawTouchEvent::SyncReport,
    ];
    let first = feed(&mut first, &events);
    let second = feed(&mut second, &events);
    let InputEvent::TouchDown { contact: first, .. } = first[0] else {
        panic!("expected first contact");
    };
    let InputEvent::TouchDown { contact: second, .. } = second[0] else {
        panic!("expected second contact");
    };
    assert_ne!(first, second);
}

#[test]
fn invalid_slot_does_not_allocate_unbounded_state() {
    let mut machine = TouchStateMachine::new(DEVICE, axes(), config(0.2, 0.05));
    let output = feed(
        &mut machine,
        &[
            RawTouchEvent::Slot(i32::MAX),
            RawTouchEvent::TrackingId(1),
            RawTouchEvent::PositionX(0),
            RawTouchEvent::PositionY(0),
            RawTouchEvent::SyncReport,
        ],
    );
    assert!(output.is_empty());
    assert_eq!(machine.active_contacts(), 0);
}

#[test]
fn a_new_tracking_number_releases_the_old_contact() {
    let mut machine = TouchStateMachine::new(DEVICE, axes(), config(0.9, 0.0));
    let output = feed(
        &mut machine,
        &[
            RawTouchEvent::TrackingId(1),
            RawTouchEvent::PositionX(0),
            RawTouchEvent::PositionY(300),
            RawTouchEvent::SyncReport,
            RawTouchEvent::TrackingId(2),
            RawTouchEvent::SyncReport,
        ],
    );
    assert_eq!(output.len(), 2);
    assert!(matches!(
        output[1],
        InputEvent::TouchUp { contact: TouchContactId { tracking_id: 1, .. }, .. }
    ));
}

#[test]
fn configuration_faults_are_told_apart() {
    assert_eq!(
        AxisRange::new(2, 1).unwrap_err(),
        TouchConfigurationError::InvalidAxisRange { minimum: 2, maximum: 1 }
    );
    assert_eq!(
        AxisRange::new(2, 1).unwrap_err().message(),
        "axis maximum (1) must not be smaller than minimum (2)"
    );
    assert_eq!(
        GestureConfig::new(0, 0).unwrap_err(),
        TouchConfigurationError::InvalidSwipeDistance(0)
    );
    assert_eq!(
        GestureConfig::new(1, 500_000_001).unwrap_err(),
        TouchConfigurationError::InvalidEdgeWidth(500_000_001)
    );
    assert_eq!(GestureConfig::default().swipe_distance(), 30_000_000);
    assert_eq!(AxisRange::new(3, 3).unwrap().normalize(7), AxisShare { offset: 0, span: 1 });
}

#[test]
fn recognizes_only_numeric_event_nodes() {
    assert!(is_event_node("event0"));
    assert!(is_event_node("event123"));
    assert!(!is_event_node("event"));
    assert!(!is_event_node("event3-old"));
    assert!(!is_event_node("mouse0"));
}

#[test]
fn missing_input_root_is_valid_and_empty() {
    let missing = IoFailure { kind: IoKind::NotFound, code: None, message: String::new() };
    let nodes = discover_event_nodes("/missing", Err(missing)).unwrap();
    assert!(nodes.is_empty());
    let mut source = EvdevInputSource::open("/missing".to_owned(), 0);
    source.forget_missing(&nodes);
    assert_eq!(source.device_count(), 0);
    assert!(source.next_pending().is_none());
}

fn identity(inode: u64) -> EventNodeIdentity {
    EventNodeIdentity { device: 1, inode }
}

#[test]
fn failed_event_node_is_backed_off_until_its_instance_changes() {
    let mut source = EvdevInputSource::with_intervals("/dev/input".to_owned(), 1, 1_000, 0);
    let path = "/dev/input/event0";
    let Visit::Open { retry_delay, .. } = source.visit(path, identity(1), 0) else {
        panic!("a new node is opened");
    };
    source
        .opened(path, identity(1), Opened::Failed("no device".to_owned()), retry_delay, 0)
        .unwrap();
    let first = source.node(path).unwrap();
    assert_eq!(source.visit(path, identity(1), 999), Visit::Leave);
    assert_eq!(source.node(path), Some(first));
    assert_eq!(source.device_error(path).map(|s| s.as_str()), Some("no device"));

    let visit = source.visit(path, identity(2), 999);
    assert_eq!(visit, Visit::Open { device: InputDeviceId(1), retry_delay: 1_000 });
    source
        .opened(path, identity(2), Opened::Failed("no device".to_owned()), 1_000, 999)
        .unwrap();
    assert_ne!(source.node(path), Some(first));
}

#[test]
fn a_failure_that_repeats_waits_longer() {
    let mut source = EvdevInputSource::open("/dev/input".to_owned(), 0);
    let path = "/dev/input/event0";
    source.opened(path, identity(1), Opened::Failed("x".to_owned()), 500, 0).unwrap();
    assert_eq!(
        source.visit(path, identity(1), 500),
        Visit::Open { device: InputDeviceId(1), retry_delay: 1_000 }
    );
}

#[test]
fn lost_devices_reset_their_contacts() {
    let mut source = EvdevInputSource::open("/dev/input".to_owned(), 0);
    let path = "/dev/input/event0";
    source.opened(path, identity(1), Opened::Touch, 500, 0).unwrap();
    assert_eq!(source.device_count(), 1);
    assert!(source.polled(path, Polled::Failed("gone".to_owned())));
    source.disconnect(&vec![path.to_owned()], 10);
    assert_eq!(
        source.next_pending(),
        Some(InputEvent::Resync { device: Some(InputDeviceId(1)) })
    );
    assert!(matches!(source.node(path), Some(NodeState::Failed { retry_at: 510, .. })));

    source.opened(path, identity(2), Opened::Touch, 500, 20).unwrap();
    let nothing = discover_event_nodes("/dev/input", Ok(Vec::new())).unwrap();
    source.forget_missing(&nothing);
    assert_eq!(
        source.next_pending(),
        Some(InputEvent::Resync { device: Some(InputDeviceId(2)) })
    );
    assert_eq!(source.node(path), None);
    assert_eq!(source.device_count(), 0);
}

#[test]
fn only_event_nodes_are_listed() {
    let found = |name: &str, inode: u64| NodeEntry::Found {
        name: Some(name.to_owned()),
        path: format!("/dev/input/{name}"),
        identity: Ok(identity(inode)),
    };
    let nodes =
        discover_event_nodes("/dev/input", Ok(vec![found("event1", 4), found("mice", 5)])).unwrap();
    assert_eq!(nodes.len(), 1);
    assert!(nodes.contains("/dev/input/event1"));
}

#[test]
fn idle_polls_slow_down() {
    let source = EvdevInputSource::open("/dev/input".to_owned(), 0);
    assert_eq!(source.next_idle(4, false), 8);
    assert_eq!(source.next_idle(32, false), 32);
    assert_eq!(source.next_idle(32, true), 4);
    assert_eq!(source.sleep_for(4, true, 0), 0);
    assert!(source.scan_due(0));
    assert_eq!(nonzero_duration(0), 1);
}

#[test]
fn kernel_events_are_mapped_by_kind_and_code() {
    let map = |event: evdev::InputEvent| {
        map_evdev_event(KernelEvent {
            kind: event.event_type().0,
            code: event.code(),
            value: event.value(),
        })
    };
    assert_eq!(map(evdev::InputEvent::new(3, 0x2f, 2)), Some(RawTouchEvent::Slot(2)));
    assert_eq!(map(evdev::InputEvent::new(3, 0x39, -1)), Some(RawTouchEvent::TrackingId(-1)));
    assert_eq!(map(evdev::InputEvent::new(3, 0x35, 9)), Some(RawTouchEvent::PositionX(9)));
    assert_eq!(map(evdev::InputEvent::new(3, 0x36, 9)), Some(RawTouchEvent::PositionY(9)));
    assert_eq!(map(evdev::InputEvent::new(0, 0, 0)), Some(RawTouchEvent::SyncReport));
    assert_eq!(map(evdev::InputEvent::new(0, 3, 0)), Some(RawTouchEvent::SyncDropped));
    assert_eq!(map(evdev::InputEvent::new(1, 0x14a, 1)), None);
    assert_eq!(evdev::AbsoluteAxisCode::ABS_MT_SLOT.0, ABS_MT_SLOT);
    assert_eq!(evdev::AbsoluteAxisCode::ABS_MT_TRACKING_ID.0, ABS_MT_TRACKING_ID);
}

fn info(code: u16, minimum: i32, maximum: i32) -> AxisInfo {
    AxisInfo { code, value: minimum, minimum, maximum }
}

#[test]
fn touch_devices_need_all_axes() {
    let codes =
        vec![ABS_MT_SLOT, ABS_MT_TRACKING_ID, ABS_MT_POSITION_X, ABS_MT_POSITION_Y];
    let full = vec![
        info(ABS_MT_SLOT, 0, 0),
        info(ABS_MT_TRACKING_ID, 0, 65535),
        info(ABS_MT_POSITION_X, 0, 100),
        info(ABS_MT_POSITION_Y, 0, 200),
    ];
    let axes = touch_axes(Some(&codes), &full).unwrap();
    assert_eq!(axes.y.maximum(), 200);
    assert!(touch_axes(None, &full).is_none());
    assert!(touch_axes(Some(&vec![ABS_MT_SLOT]), &full).is_none());
    let flat = vec![info(ABS_MT_SLOT, 0, 0), info(ABS_MT_POSITION_X, 5, 5), full[3]];
    assert!(touch_axes(Some(&codes), &flat).is_none());

    assert_eq!(single_slot_snapshot(axes, &full).unwrap(), Some((0, 0, 0)));
    assert!(single_slot_snapshot(axes, &vec![full[0]]).is_err());
}

#[test]
fn feeding_stops_where_a_rebuild_is_due() {
    let mut machine = TouchStateMachine::new(DEVICE, axes(), GestureConfig::default());
    let report = KernelEvent { kind: 0, code: 0, value: 0 };
    let dropped = KernelEvent { kind: 0, code: 3, value: 0 };
    let mut out: Vec<InputEvent> = Vec::new();
    let events = vec![report, dropped, report, report];
    assert_eq!(feed_events(&mut machine, &events, 0, &mut out), (3, true));
    assert_eq!(out, [InputEvent::Resync { device: Some(DEVICE) }]);
    assert_eq!(feed_events(&mut machine, &events, 3, &mut out), (4, false));
}

#[test]
fn refused_thresholds_are_shown_as_fractions() {
    let shown = |swipe: u32, edge: u32| GestureConfig::new(swipe, edge).unwrap_err().message();
    assert_eq!(shown(0, 0), "swipe distance must be finite and in (0, 1], got 0");
    assert_eq!(
        shown(1_250_000_000, 0),
        "swipe distance must be finite and in (0, 1], got 1.25"
    );
    assert_eq!(shown(1, 600_000_000), "edge width must be finite and in [0, 0.5], got 0.6");
    assert_eq!(
        shown(1, 2_000_000_001),
        "edge width must be finite and in [0, 0.5], got 2.000000001"
    );
}

#[test]
fn a_scan_resets_lost_devices_once_and_keeps_the_others() {
    let mut source = EvdevInputSource::open("/dev/input".to_owned(), 0);
    let scan = |source: &mut EvdevInputSource, nodes: &[(&str, u64)], now: u64| {
        let mut present: Table<EventNodeIdentity> = Table::new();
        for (name, inode) in nodes {
            let identity = EventNodeIdentity { device: 1, inode: *inode };
            present.insert((*name).to_owned(), identity);
        }
        source.forget_missing(&present);
        let mut given = Vec::new();
        for at in 0..present.len() {
            let path = present.key_at(at).to_owned();
            let identity = *present.value_at(at);
            if let Visit::Open { device, retry_delay } = source.visit(&path, identity, now) {
                given.push(device);
                source.opened(&path, identity, Opened::Touch, retry_delay, now).unwrap();
            }
        }
        source.scanned(now);
        let mut resets = Vec::new();
        while let Some(event) = source.next_pending() {
            resets.push(event);
        }
        (given, resets)
    };
    let (first, resets) = scan(&mut source, &[("a", 1), ("b", 2), ("c", 3)], 0);
    assert_eq!(first.len(), 3);
    assert!(resets.is_empty());
    let (second, resets) = scan(&mut source, &[("b", 2), ("c", 9)], 10);
    assert_eq!(
        resets,
        [
            InputEvent::Resync { device: Some(first[0]) },
            InputEvent::Resync { device: Some(first[2]) },
        ]
    );
    assert_eq!(second.len(), 1);
    assert!(!first.contains(&second[0]));
    assert!(matches!(
        source.node("b"),
        Some(NodeState::Open { device, .. }) if device == first[1]
    ));
    let (third, resets) = scan(&mut source, &[("b", 2), ("c", 9)], 20);
    assert!(third.is_empty() && resets.is_empty());
}
