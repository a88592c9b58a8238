//! Observation of touch devices: which event nodes are open, ignored or have
//! failed, when they are tried again, and what their events mean.

use vstd::prelude::*;
use crate::number::is_digits;
use crate::platform::{
    malformed, InputDeviceId, InputEvent, IoFailure, IoKind, PlatformError, PlatformErrorView,
    PlatformResult,
};
use crate::table::{texts_ascending, Table};
use crate::text::{chars_of, strip_prefix, texts, without_prefix};
use super::touch::{handled, AxisRange, RawTouchEvent, TouchAxes, TouchStateMachine, TouchView};

verus! {

/// How often open devices are polled, in milliseconds.
pub const DEFAULT_POLL_INTERVAL: u64 = 4;

/// How often the directory is scanned, in milliseconds.
pub const DEFAULT_SCAN_INTERVAL: u64 = 500;

/// The longest pause between polls, in milliseconds.
pub const MAX_IDLE_POLL_INTERVAL: u64 = 32;

/// The longest pause before a failed node is tried again, in milliseconds.
pub const MAX_DEVICE_RETRY_INTERVAL: u64 = 30_000;

/// A kernel input event.
#[derive(Clone, Copy, Debug, PartialEq, Eq, Structural)]
pub struct KernelEvent {
    pub kind: u16,
    pub code: u16,
    pub value: i32,
}

/// The kind of synchronization events.
pub const EV_SYN: u16 = 0;

/// The kind of absolute axis events.
pub const EV_ABS: u16 = 3;

/// The report that ends a frame.
pub const SYN_REPORT: u16 = 0;

/// The mark of a lost frame.
pub const SYN_DROPPED: u16 = 3;

/// The axis that selects a slot.
pub const ABS_MT_SLOT: u16 = 0x2f;

/// The horizontal position of a contact.
pub const ABS_MT_POSITION_X: u16 = 0x35;

/// The vertical position of a contact.
pub const ABS_MT_POSITION_Y: u16 = 0x36;

/// The tracking number of a contact.
pub const ABS_MT_TRACKING_ID: u16 = 0x39;

/// The protocol event that a kernel event stands for; others do not matter.
pub open spec fn raw_event(e: KernelEvent) -> Option<RawTouchEvent> {
    if e.kind == EV_ABS && e.code == ABS_MT_SLOT {
        Some(RawTouchEvent::Slot(e.value))
    } else if e.kind == EV_ABS && e.code == ABS_MT_TRACKING_ID {
        Some(RawTouchEvent::TrackingId(e.value))
    } else if e.kind == EV_ABS && e.code == ABS_MT_POSITION_X {
        Some(RawTouchEvent::PositionX(e.value))
    } else if e.kind == EV_ABS && e.code == ABS_MT_POSITION_Y {
        Some(RawTouchEvent::PositionY(e.value))
    } else if e.kind == EV_SYN && e.code == SYN_REPORT {
        Some(RawTouchEvent::SyncReport)
    } else if e.kind == EV_SYN && e.code == SYN_DROPPED {
        Some(RawTouchEvent::SyncDropped)
    } else {
        None
    }
}

/// The protocol event that a kernel event stands for.
pub fn map_evdev_event(event: KernelEvent) -> (r: Option<RawTouchEvent>)
    ensures
        r == raw_event(event),
{
    let value: i32 = event.value;
    if event.kind == EV_ABS {
        if event.code == ABS_MT_SLOT {
            Some(RawTouchEvent::Slot(value))
        } else if event.code == ABS_MT_TRACKING_ID {
            Some(RawTouchEvent::TrackingId(value))
        } else if event.code == ABS_MT_POSITION_X {
            Some(RawTouchEvent::PositionX(value))
        } else if event.code == ABS_MT_POSITION_Y {
            Some(RawTouchEvent::PositionY(value))
        } else {
            None
        }
    } else if event.kind == EV_SYN {
        if event.code == SYN_REPORT {
            Some(RawTouchEvent::SyncReport)
        } else if event.code == SYN_DROPPED {
            Some(RawTouchEvent::SyncDropped)
        } else {
            None
        }
    } else {
        None
    }
}

/// What the kernel says of an axis.
#[derive(Clone, Copy, Debug, PartialEq, Eq, Structural)]
pub struct AxisInfo {
    pub code: u16,
    pub value: i32,
    pub minimum: i32,
    pub maximum: i32,
}

/// The last of the first `n` axes with a code that is usable: a position axis
/// must have more than one value, a slot axis at least one. An unusable slot
/// axis takes back an earlier one.
pub open spec fn axis_in(all: Seq<AxisInfo>, n: nat, code: u16) -> Option<(i32, i32)>
    decreases n,
{
    if n == 0 {
        None
    } else {
        let a = all[n - 1];
        let before = axis_in(all, (n - 1) as nat, code);
        if a.code != code {
            before
        } else if a.maximum > a.minimum || (code == ABS_MT_SLOT && a.maximum == a.minimum) {
            Some((a.minimum, a.maximum))
        } else if code == ABS_MT_SLOT {
            None
        } else {
            before
        }
    }
}

/// Whether each of the axes that matter is supported.
pub open spec fn has_touch_axes(supported: Seq<u16>) -> bool {
    supported.contains(ABS_MT_SLOT) && supported.contains(ABS_MT_TRACKING_ID) && supported.contains(
        ABS_MT_POSITION_X,
    ) && supported.contains(ABS_MT_POSITION_Y)
}

/// Whether a range is the given one.
pub open spec fn is_range(r: AxisRange, ends: Option<(i32, i32)>) -> bool {
    ends == Some((r.low(), r.high()))
}

fn holds(v: &Vec<u16>, x: u16) -> (r: bool)
    ensures
        r == v@.contains(x),
{
    let mut i: usize = 0;
    while i < v.len()
        invariant
            i <= v@.len(),
            forall|k: int| 0 <= k < i ==> v@[k] != x,
        decreases v@.len() - i,
    {
        if v[i] == x {
            return true;
        }
        i = i + 1;
    }
    false
}

/// The usable range of an axis.
fn find_axis(all: &Vec<AxisInfo>, code: u16) -> (r: Option<AxisRange>)
    ensures
        match r {
            Some(a) => is_range(a, axis_in(all@, all@.len(), code)),
            None => axis_in(all@, all@.len(), code) is None,
        },
{
    let mut out: Option<AxisRange> = None;
    let mut i: usize = 0;
    while i < all.len()
        invariant
            i <= all@.len(),
            match out {
                Some(a) => is_range(a, axis_in(all@, i as nat, code)),
                None => axis_in(all@, i as nat, code) is None,
            },
        decreases all@.len() - i,
    {
        let a = all[i];
        if a.code == code {
            if a.maximum > a.minimum || code == ABS_MT_SLOT {
                out = match AxisRange::new(a.minimum, a.maximum) {
                    Ok(range) => Some(range),
                    Err(_) => None,
                };
            }
        }
        i = i + 1;
    }
    out
}

/// Whether a device has the axes of a touch device, as far as their codes tell.
pub fn supports_touch(supported: Option<&Vec<u16>>) -> (r: bool)
    ensures
        r == (supported is Some && has_touch_axes(supported->0@)),
{
    match supported {
        None => false,
        Some(codes) => holds(codes, ABS_MT_SLOT) && holds(codes, ABS_MT_TRACKING_ID) && holds(
            codes,
            ABS_MT_POSITION_X,
        ) && holds(codes, ABS_MT_POSITION_Y),
    }
}

/// Whether a touch device has one slot only.
pub fn is_single_slot(axes: TouchAxes) -> (r: bool)
    ensures
        r == (axes.slots.low() == axes.slots.high()),
{
    axes.slots.minimum() == axes.slots.maximum()
}

/// The axes of a touch device: only a device with slots, tracking numbers and
/// both position axes is one.
pub fn touch_axes(supported: Option<&Vec<u16>>, info: &Vec<AxisInfo>) -> (r: Option<TouchAxes>)
    ensures
        ({
            let x = axis_in(info@, info@.len(), ABS_MT_POSITION_X);
            let y = axis_in(info@, info@.len(), ABS_MT_POSITION_Y);
            let s = axis_in(info@, info@.len(), ABS_MT_SLOT);
            match r {
                Some(t) => {
                    &&& supported is Some && has_touch_axes(supported->0@)
                    &&& is_range(t.x, x)
                    &&& is_range(t.y, y)
                    &&& is_range(t.slots, s)
                },
                None => supported is None || !has_touch_axes(supported->0@) || x is None || y is None
                    || s is None,
            }
        }),
{
    if !supports_touch(supported) {
        return None;
    }
    let x = find_axis(info, ABS_MT_POSITION_X);
    let y = find_axis(info, ABS_MT_POSITION_Y);
    let s = find_axis(info, ABS_MT_SLOT);
    match (x, y, s) {
        (Some(x), Some(y), Some(slots)) => Some(TouchAxes { x, y, slots }),
        _ => None,
    }
}

/// The value of the last of the first `n` axes with a code.
pub open spec fn value_in(all: Seq<AxisInfo>, n: nat, code: u16) -> Option<i32>
    decreases n,
{
    if n == 0 {
        None
    } else if all[n - 1].code == code {
        Some(all[n - 1].value)
    } else {
        value_in(all, (n - 1) as nat, code)
    }
}

fn find_value(all: &Vec<AxisInfo>, code: u16) -> (r: Option<i32>)
    ensures
        r == value_in(all@, all@.len(), code),
{
    let mut out: Option<i32> = None;
    let mut i: usize = 0;
    while i < all.len()
        invariant
            i <= all@.len(),
            out == value_in(all@, i as nat, code),
        decreases all@.len() - i,
    {
        if all[i].code == code {
            out = Some(all[i].value);
        }
        i = i + 1;
    }
    out
}

/// What the kernel says of the only slot of a device, for a rebuild after a
/// dropped frame. A device with several slots is not rebuilt: the kernel's axis
/// values would give an incomplete picture.
pub fn single_slot_snapshot(axes: TouchAxes, info: &Vec<AxisInfo>) -> (r: Result<
    Option<(i32, i32, i32)>,
    IoFailure,
>)
    ensures
        ({
            let id = value_in(info@, info@.len(), ABS_MT_TRACKING_ID);
            let x = value_in(info@, info@.len(), ABS_MT_POSITION_X);
            let y = value_in(info@, info@.len(), ABS_MT_POSITION_Y);
            if axes.slots.low() != axes.slots.high() {
                r is Ok && r->Ok_0 is None
            } else if id is Some && x is Some && y is Some {
                r is Ok && r->Ok_0 == Some((id->0, x->0, y->0))
            } else {
                &&& r is Err
                &&& r->Err_0.kind == IoKind::InvalidData
                &&& r->Err_0.message@
                    == "single-slot touch device omitted required absolute-axis state"@
            }
        }),
{
    if !is_single_slot(axes) {
        return Ok(None);
    }
    match (
        find_value(info, ABS_MT_TRACKING_ID),
        find_value(info, ABS_MT_POSITION_X),
        find_value(info, ABS_MT_POSITION_Y),
    ) {
        (Some(id), Some(x), Some(y)) => Ok(Some((id, x, y))),
        _ => Err(
            IoFailure {
                kind: IoKind::InvalidData,
                code: None,
                message: "single-slot touch device omitted required absolute-axis state".to_owned(),
            },
        ),
    }
}

/// Whether a machine that took an event should now be rebuilt: the event was
/// the report that ended a gap.
pub fn wants_rebuild(was_desynchronized: bool, event: RawTouchEvent, is_desynchronized: bool) -> (r:
    bool)
    ensures
        r == (was_desynchronized && event == RawTouchEvent::SyncReport && !is_desynchronized),
{
    was_desynchronized && !is_desynchronized && match event {
        RawTouchEvent::SyncReport => true,
        _ => false,
    }
}

/// Whether a name is that of an event node: `event` and digits.
pub open spec fn event_node(name: Seq<char>) -> bool {
    match without_prefix(name, "event"@) {
        Some(rest) => is_digits(rest),
        None => false,
    }
}

/// Whether a name is that of an event node.
pub fn is_event_node(name: &str) -> (r: bool)
    ensures
        r == event_node(name@),
{
    match strip_prefix(name, "event") {
        None => false,
        Some(rest) => {
            let chars = chars_of(rest.as_str());
            if chars.len() == 0 {
                return false;
            }
            let mut i: usize = 0;
            while i < chars.len()
                invariant
                    i <= chars@.len(),
                    chars@ == rest@,
                    rest@.len() > 0,
                    without_prefix(name@, "event"@) == Some(rest@),
                    forall|k: int| 0 <= k < i ==> crate::number::is_digit(#[trigger] rest@[k]),
                decreases chars@.len() - i,
            {
                let c = chars[i];
                if !('0' <= c && c <= '9') {
                    assert(!crate::number::is_digit(rest@[i as int]));
                    return false;
                }
                i = i + 1;
            }
            true
        },
    }
}

/// A pause that is not zero.
pub fn nonzero_duration(milliseconds: u64) -> (r: u64)
    ensures
        r == (if milliseconds == 0 {
            1
        } else {
            milliseconds
        }),
{
    if milliseconds == 0 {
        1
    } else {
        milliseconds
    }
}

/// What tells one instance of an event node from the next under the same path.
#[derive(Clone, Copy, Debug, PartialEq, Eq, Structural)]
pub struct EventNodeIdentity {
    pub device: u64,
    pub inode: u64,
}

impl View for EventNodeIdentity {
    type V = EventNodeIdentity;

    open spec fn view(&self) -> EventNodeIdentity {
        *self
    }
}

/// An entry of the input directory.
#[derive(Debug)]
pub enum NodeEntry {
    Unreadable(IoFailure),
    /// A name, unless it is no text, with the path and what the system says of
    /// it.
    Found { name: Option<String>, path: String, identity: Result<EventNodeIdentity, IoFailure> },
}

/// The event nodes among the first `n` entries; the first that cannot be read
/// decides.
pub open spec fn nodes_in(root: Seq<char>, all: Seq<NodeEntry>, n: nat) -> Result<
    Map<Seq<char>, EventNodeIdentity>,
    PlatformErrorView,
>
    decreases n,
{
    if n == 0 {
        Ok(Map::empty())
    } else {
        match nodes_in(root, all, (n - 1) as nat) {
            Err(e) => Err(e),
            Ok(before) => match all[n - 1] {
                NodeEntry::Unreadable(e) => Err(
                    PlatformErrorView::Io {
                        operation: "read evdev input directory entry"@,
                        path: root,
                        source: e@,
                    },
                ),
                NodeEntry::Found { name, path, identity } => if name is Some && event_node(
                    name->0@,
                ) {
                    match identity {
                        Ok(id) => Ok(before.insert(path@, id)),
                        Err(e) => Err(
                            PlatformErrorView::Io {
                                operation: "stat evdev input node"@,
                                path: path@,
                                source: e@,
                            },
                        ),
                    }
                } else {
                    Ok(before)
                },
            },
        }
    }
}

proof fn nodes_error_stands(root: Seq<char>, all: Seq<NodeEntry>, n: nat, k: nat)
    requires
        n <= k,
        nodes_in(root, all, n) is Err,
    ensures
        nodes_in(root, all, k) == nodes_in(root, all, n),
    decreases k,
{
    if n < k {
        nodes_error_stands(root, all, n, (k - 1) as nat);
    }
}

/// The event nodes of the input directory. A missing directory has none.
pub open spec fn nodes_listed(root: Seq<char>, listing: Result<Vec<NodeEntry>, IoFailure>) -> Result<
    Map<Seq<char>, EventNodeIdentity>,
    PlatformErrorView,
> {
    match listing {
        Ok(all) => nodes_in(root, all@, all@.len()),
        Err(e) => if e.kind == IoKind::NotFound {
            Ok(Map::empty())
        } else {
            Err(
                PlatformErrorView::Io {
                    operation: "enumerate evdev input directory"@,
                    path: root,
                    source: e@,
                },
            )
        },
    }
}

/// The event nodes of the input directory.
pub fn discover_event_nodes(root: &str, listing: Result<Vec<NodeEntry>, IoFailure>) -> (r:
    PlatformResult<Table<EventNodeIdentity>>)
    ensures
        match r {
            Ok(t) => nodes_listed(root@, listing) == Ok::<
                Map<Seq<char>, EventNodeIdentity>,
                PlatformErrorView,
            >(t@),
            Err(e) => nodes_listed(root@, listing) == Err::<
                Map<Seq<char>, EventNodeIdentity>,
                PlatformErrorView,
            >(e@),
        },
{
    let entries = match listing {
        Err(e) => {
            return if e.kind == IoKind::NotFound {
                Ok(Table::new())
            } else {
                Err(PlatformError::io("enumerate evdev input directory", root, e))
            };
        },
        Ok(v) => v,
    };
    let ghost all = entries@;
    let mut left = entries;
    let mut out: Table<EventNodeIdentity> = Table::new();
    let mut n: Ghost<nat> = Ghost(0nat);
    assert(left@ =~= all.skip(0));
    while left.len() > 0
        invariant
            n@ <= all.len(),
            left@ == all.skip(n@ as int),
            listing is Ok && all == listing->Ok_0@,
            nodes_in(root@, all, n@) == Ok::<Map<Seq<char>, EventNodeIdentity>, PlatformErrorView>(
                out@,
            ),
        decreases left@.len(),
    {
        let entry = left.remove(0);
        assert(entry == all[n@ as int]);
        match entry {
            NodeEntry::Unreadable(e) => {
                proof {
                    nodes_error_stands(root@, all, n@ + 1, all.len());
                }
                return Err(PlatformError::io("read evdev input directory entry", root, e));
            },
            NodeEntry::Found { name, path, identity } => {
                let wanted = match &name {
                    Some(s) => is_event_node(s.as_str()),
                    None => false,
                };
                if wanted {
                    match identity {
                        Err(e) => {
                            proof {
                                nodes_error_stands(root@, all, n@ + 1, all.len());
                            }
                            return Err(
                                PlatformError::io("stat evdev input node", path.as_str(), e),
                            );
                        },
                        Ok(id) => {
                            out.insert(path, id);
                        },
                    }
                }
            },
        }
        n = Ghost(n@ + 1);
        assert(left@ =~= all.skip(n@ as int));
    }
    Ok(out)
}

/// What is known of an event node.
#[derive(Clone, Copy, Debug, PartialEq, Eq, Structural)]
pub enum NodeState {
    /// Open as a touch device.
    Open { device: InputDeviceId, identity: EventNodeIdentity },
    /// No touch device.
    Ignored { identity: EventNodeIdentity },
    /// It could not be opened or read, and is left alone until a time.
    Failed { identity: EventNodeIdentity, retry_at: u64, next_delay: u64 },
}

impl View for NodeState {
    type V = NodeState;

    open spec fn view(&self) -> NodeState {
        *self
    }
}

/// What to do with a node that was found.
#[derive(Clone, Copy, Debug, PartialEq, Eq, Structural)]
pub enum Visit {
    Leave,
    /// Open it, under this identity; the pause to keep if that fails.
    Open { device: InputDeviceId, retry_delay: u64 },
}

/// What became of opening a node.
#[derive(Debug)]
pub enum Opened {
    Touch,
    Other,
    Failed(String),
}

/// What became of reading a device.
#[derive(Debug)]
pub enum Polled {
    Read,
    Idle,
    Failed(String),
}

/// The bookkeeping of a source of touch events. Devices may come and go; each
/// opened one gets an identity of its own.
#[derive(Debug)]
pub struct EvdevInputSource {
    root: String,
    poll_interval: u64,
    scan_interval: u64,
    next_scan: u64,
    next_device_id: u64,
    nodes: Table<NodeState>,
    device_errors: Table<String>,
    pending: Vec<InputEvent>,
}

/// The view of [`EvdevInputSource`].
pub struct SourceView {
    pub root: Seq<char>,
    pub poll_interval: u64,
    pub scan_interval: u64,
    pub next_scan: u64,
    pub next_device_id: u64,
    pub nodes: Map<Seq<char>, NodeState>,
    pub errors: Map<Seq<char>, Seq<char>>,
    pub pending: Seq<InputEvent>,
}

/// The sum of a time and a pause, held at the largest time.
pub open spec fn later(now: u64, pause: u64) -> u64 {
    if now + pause > u64::MAX {
        u64::MAX
    } else {
        (now + pause) as u64
    }
}

/// The pause after a pause that did not help.
pub open spec fn longer(pause: u64) -> u64 {
    if pause * 2 > MAX_DEVICE_RETRY_INTERVAL {
        MAX_DEVICE_RETRY_INTERVAL
    } else {
        (pause * 2) as u64
    }
}

/// The pause after a pause that did not help.
fn longer_pause(pause: u64) -> (r: u64)
    ensures
        r == longer(pause),
{
    if pause > MAX_DEVICE_RETRY_INTERVAL / 2 {
        MAX_DEVICE_RETRY_INTERVAL
    } else {
        pause * 2
    }
}

/// The resets of the devices at the first `n` paths that are gone.
pub open spec fn gone_resets(
    keys: Seq<Seq<char>>,
    nodes: Map<Seq<char>, NodeState>,
    present: Map<Seq<char>, EventNodeIdentity>,
    n: nat,
) -> Seq<InputEvent>
    decreases n,
{
    if n == 0 {
        Seq::empty()
    } else {
        let before = gone_resets(keys, nodes, present, (n - 1) as nat);
        let k = keys[n - 1];
        match nodes[k] {
            NodeState::Open { device, identity } if !present.dom().contains(k) => before.push(
                InputEvent::Resync { device: Some(device) },
            ),
            _ => before,
        }
    }
}

/// The paths that are known and gone.
pub open spec fn gone(
    nodes: Map<Seq<char>, NodeState>,
    present: Map<Seq<char>, EventNodeIdentity>,
) -> Set<Seq<char>> {
    nodes.dom().difference(present.dom())
}

/// What a node that was found at a path asks for, with the source after it.
pub open spec fn visited(v: SourceView, path: Seq<char>, identity: EventNodeIdentity, now: u64) -> (
    SourceView,
    Visit,
) {
    let device = InputDeviceId(v.next_device_id);
    let fresh = Visit::Open { device, retry_delay: v.scan_interval };
    let forgotten = SourceView { nodes: v.nodes.remove(path), ..v };
    if !v.nodes.dom().contains(path) {
        (v, fresh)
    } else {
        match v.nodes[path] {
            NodeState::Open { device: old_device, identity: known } => if known == identity {
                (v, Visit::Leave)
            } else {
                (
                    SourceView {
                        pending: v.pending.push(InputEvent::Resync { device: Some(old_device) }),
                        ..forgotten
                    },
                    fresh,
                )
            },
            NodeState::Ignored { identity: known } => if known == identity {
                (v, Visit::Leave)
            } else {
                (forgotten, fresh)
            },
            NodeState::Failed { identity: known, retry_at, next_delay } => if known != identity {
                (forgotten, fresh)
            } else if now < retry_at {
                (v, Visit::Leave)
            } else {
                (forgotten, Visit::Open { device, retry_delay: next_delay })
            },
        }
    }
}

/// The source after a node was opened, or was not.
pub open spec fn open_result(
    v: SourceView,
    path: Seq<char>,
    identity: EventNodeIdentity,
    outcome: Opened,
    retry_delay: u64,
    now: u64,
) -> SourceView {
    match outcome {
        Opened::Touch => if v.next_device_id == u64::MAX {
            v
        } else {
            SourceView {
                next_device_id: (v.next_device_id + 1) as u64,
                nodes: v.nodes.insert(
                    path,
                    NodeState::Open { device: InputDeviceId(v.next_device_id), identity },
                ),
                errors: v.errors.remove(path),
                ..v
            }
        },
        Opened::Other => SourceView {
            nodes: v.nodes.insert(path, NodeState::Ignored { identity }),
            errors: v.errors.remove(path),
            ..v
        },
        Opened::Failed(why) => SourceView {
            nodes: v.nodes.insert(
                path,
                NodeState::Failed {
                    identity,
                    retry_at: later(now, retry_delay),
                    next_delay: longer(retry_delay),
                },
            ),
            errors: v.errors.insert(path, why@),
            ..v
        },
    }
}

/// The source after a device was lost: its contacts are discarded and its node
/// is left alone for a while.
pub open spec fn lost(v: SourceView, path: Seq<char>, now: u64) -> SourceView {
    if v.nodes.dom().contains(path) {
        match v.nodes[path] {
            NodeState::Open { device, identity } => SourceView {
                nodes: v.nodes.insert(
                    path,
                    NodeState::Failed {
                        identity,
                        retry_at: later(now, v.scan_interval),
                        next_delay: longer(v.scan_interval),
                    },
                ),
                pending: v.pending.push(InputEvent::Resync { device: Some(device) }),
                ..v
            },
            _ => v,
        }
    } else {
        v
    }
}

/// The source after the devices at the first `n` paths were lost.
pub open spec fn all_lost(v: SourceView, paths: Seq<Seq<char>>, n: nat, now: u64) -> SourceView
    decreases n,
{
    if n == 0 {
        v
    } else {
        lost(all_lost(v, paths, (n - 1) as nat, now), paths[n - 1], now)
    }
}

impl View for EvdevInputSource {
    type V = SourceView;

    closed spec fn view(&self) -> SourceView {
        SourceView {
            root: self.root@,
            poll_interval: self.poll_interval,
            scan_interval: self.scan_interval,
            next_scan: self.next_scan,
            next_device_id: self.next_device_id,
            nodes: self.nodes@,
            errors: self.device_errors@,
            pending: self.pending@,
        }
    }
}

/// How long to sleep: until the next scan, and with devices open not longer than
/// the idle time.
pub open spec fn sleep_time(next_scan: u64, idle: u64, devices_open: bool, now: u64) -> int {
    let until: int = if next_scan > now {
        next_scan - now
    } else {
        0
    };
    if devices_open && idle < until {
        idle as int
    } else {
        until
    }
}

impl EvdevInputSource {
    /// A source on a directory, with production intervals.
    pub fn open(root: String, now: u64) -> (s: Self)
        ensures
            s@ == (SourceView {
                root: root@,
                poll_interval: DEFAULT_POLL_INTERVAL,
                scan_interval: DEFAULT_SCAN_INTERVAL,
                next_scan: now,
                next_device_id: 1,
                nodes: Map::empty(),
                errors: Map::empty(),
                pending: Seq::empty(),
            }),
    {
        EvdevInputSource::with_intervals(
            root,
            DEFAULT_POLL_INTERVAL,
            DEFAULT_SCAN_INTERVAL,
            now,
        )
    }

    /// A source with explicit intervals, in milliseconds. A zero interval is
    /// replaced by one millisecond.
    pub fn with_intervals(root: String, poll_interval: u64, scan_interval: u64, now: u64) -> (s:
        Self)
        ensures
            s@ == (SourceView {
                root: root@,
                poll_interval: if poll_interval == 0 {
                    1
                } else {
                    poll_interval
                },
                scan_interval: if scan_interval == 0 {
                    1
                } else {
                    scan_interval
                },
                next_scan: now,
                next_device_id: 1,
                nodes: Map::empty(),
                errors: Map::empty(),
                pending: Seq::empty(),
            }),
    {
        let s = EvdevInputSource {
            root,
            poll_interval: nonzero_duration(poll_interval),
            scan_interval: nonzero_duration(scan_interval),
            next_scan: now,
            next_device_id: 1,
            nodes: Table::new(),
            device_errors: Table::new(),
            pending: Vec::new(),
        };
        assert(s@.pending =~= Seq::empty());
        s
    }

    /// What is known of the node at a path.
    pub fn node(&self, path: &str) -> (r: Option<NodeState>)
        ensures
            match r {
                Some(s) => self@.nodes.dom().contains(path@) && s == self@.nodes[path@],
                None => !self@.nodes.dom().contains(path@),
            },
    {
        self.nodes.copied(path)
    }

    /// The last failure to open or read the device at a path.
    pub fn device_error(&self, path: &str) -> (r: Option<&String>)
        ensures
            match r {
                Some(s) => self@.errors.dom().contains(path@) && s@ == self@.errors[path@],
                None => !self@.errors.dom().contains(path@),
            },
    {
        self.device_errors.get(path)
    }

    /// Takes out the next event, if there is one.
    pub fn next_pending(&mut self) -> (r: Option<InputEvent>)
        ensures
            if old(self)@.pending.len() == 0 {
                r is None && final(self)@ == old(self)@
            } else {
                &&& r == Some(old(self)@.pending[0])
                &&& final(self)@ == (SourceView {
                    pending: old(self)@.pending.skip(1),
                    ..old(self)@
                })
            },
    {
        if self.pending.len() == 0 {
            return None;
        }
        let ghost before = self.pending@;
        let event = self.pending.remove(0);
        assert(self.pending@ =~= before.skip(1));
        Some(event)
    }

    /// Adds the events that a device gave.
    pub fn push_events(&mut self, events: Vec<InputEvent>)
        ensures
            final(self)@ == (SourceView {
                pending: old(self)@.pending + events@,
                ..old(self)@
            }),
    {
        let mut events = events;
        self.pending.append(&mut events);
    }

    /// Discards the events that wait.
    pub fn clear_pending(&mut self)
        ensures
            final(self)@ == (SourceView { pending: Seq::empty(), ..old(self)@ }),
    {
        self.pending = Vec::new();
        assert(self.pending@ =~= Seq::empty());
    }

    /// Whether the directory should be scanned.
    pub fn scan_due(&self, now: u64) -> (r: bool)
        ensures
            r == (now >= self@.next_scan),
    {
        now >= self.next_scan
    }

    /// Forgets the nodes that are gone. Contacts of devices among them are
    /// discarded.
    pub fn forget_missing(&mut self, present: &Table<EventNodeIdentity>)
        ensures
            exists|keys: Seq<Seq<char>>|
                {
                    &&& #[trigger] texts_ascending(keys)
                    &&& keys.to_set() == old(self)@.nodes.dom()
                    &&& final(self)@ == (SourceView {
                        nodes: old(self)@.nodes.remove_keys(gone(old(self)@.nodes, present@)),
                        errors: old(self)@.errors.remove_keys(gone(old(self)@.nodes, present@)),
                        pending: old(self)@.pending + gone_resets(
                            keys,
                            old(self)@.nodes,
                            present@,
                            keys.len(),
                        ),
                        ..old(self)@
                    })
                },
    {
        let ghost start = self@;
        let count: usize = self.nodes.len();
        let ghost keys = self.nodes.keys();
        proof {
            assert forall|k: Seq<char>| keys.to_set().contains(k) <==> start.nodes.dom().contains(
                k,
            ) by {}
            assert(keys.to_set() =~= start.nodes.dom());
        }
        let mut doomed: Vec<String> = Vec::new();
        let mut i: usize = 0;
        assert(self@.pending =~= start.pending + gone_resets(keys, start.nodes, present@, 0));
        while i < count
            invariant
                i <= count,
                count == keys.len(),
                keys == self.nodes.keys(),
                texts_ascending(keys),
                keys.to_set() == start.nodes.dom(),
                self@ == (SourceView {
                    pending: start.pending + gone_resets(keys, start.nodes, present@, i as nat),
                    ..start
                }),
                forall|k: Seq<char>| #[trigger]
                    texts(doomed@).contains(k) <==> (keys.take(i as int).contains(k)
                        && !present@.dom().contains(k)),
            decreases count - i,
        {
            let ghost before = texts(doomed@);
            let ghost prior = self.pending@;
            let key = self.nodes.key_at(i);
            let ghost k = keys[i as int];
            if !present.contains(key) {
                let state = *self.nodes.value_at(i);
                doomed.push(key.to_owned());
                assert(texts(doomed@) =~= before.push(k));
                if let NodeState::Open { device, identity: _ } = state {
                    self.pending.push(InputEvent::Resync { device: Some(device) });
                }
            }
            proof {
                let t = keys.take(i as int);
                let u = keys.take(i + 1);
                assert(u =~= t.push(k));
                assert forall|x: Seq<char>| u.contains(x) <==> (t.contains(x) || x == k) by {
                    if t.contains(x) {
                        let j = choose|j: int| 0 <= j < t.len() && t[j] == x;
                        assert(u[j] == x);
                    }
                    assert(u[i as int] == k);
                }
                assert forall|x: Seq<char>| #[trigger]
                    texts(doomed@).contains(x) <==> (u.contains(x) && !present@.dom().contains(
                        x,
                    )) by {
                    if before.contains(x) {
                        let j = choose|j: int| 0 <= j < before.len() && before[j] == x;
                        assert(texts(doomed@)[j] == x);
                    }
                    if texts(doomed@).contains(x) && !before.contains(x) {
                        let j = choose|j: int|
                            0 <= j < texts(doomed@).len() && texts(doomed@)[j] == x;
                        assert(j < before.len() ==> before[j] == x);
                        assert(x == k);
                    }
                    if !present@.dom().contains(k) {
                        assert(texts(doomed@)[texts(doomed@).len() - 1] == k);
                    }
                }
                assert(self@.pending =~= start.pending + gone_resets(
                    keys,
                    start.nodes,
                    present@,
                    (i + 1) as nat,
                ));
            }
            i = i + 1;
        }
        let ghost dead = gone(start.nodes, present@);
        proof {
            assert(keys.take(keys.len() as int) =~= keys);
            assert forall|k: Seq<char>| texts(doomed@).contains(k) <==> dead.contains(k) by {
                assert(keys.contains(k) <==> keys.to_set().contains(k));
            }
        }
        let mut j: usize = 0;
        assert(start.nodes.remove_keys(texts(doomed@).take(0).to_set()) =~= start.nodes);
        assert(start.errors.remove_keys(texts(doomed@).take(0).to_set()) =~= start.errors);
        while j < doomed.len()
            invariant
                j <= doomed@.len(),
                self@ == (SourceView {
                    nodes: start.nodes.remove_keys(texts(doomed@).take(j as int).to_set()),
                    errors: start.errors.remove_keys(texts(doomed@).take(j as int).to_set()),
                    pending: start.pending + gone_resets(
                        keys,
                        start.nodes,
                        present@,
                        keys.len(),
                    ),
                    ..start
                }),
            decreases doomed@.len() - j,
        {
            let ghost d = texts(doomed@);
            let ghost k = d[j as int];
            self.nodes.remove(doomed[j].as_str());
            self.device_errors.remove(doomed[j].as_str());
            proof {
                let t = d.take(j as int);
                let u = d.take(j + 1);
                assert(u =~= t.push(k));
                assert forall|x: Seq<char>| u.to_set().contains(x) <==> (t.to_set().contains(x) || x
                    == k) by {
                    if t.contains(x) {
                        let m = choose|m: int| 0 <= m < t.len() && t[m] == x;
                        assert(u[m] == x);
                    }
                    assert(u[j as int] == k);
                }
                assert(self@.nodes =~= start.nodes.remove_keys(u.to_set()));
                assert(self@.errors =~= start.errors.remove_keys(u.to_set()));
            }
            j = j + 1;
        }
        proof {
            let d = texts(doomed@);
            assert(d.take(d.len() as int) =~= d);
            assert(d.to_set() =~= dead);
        }
    }

    /// What to do with a node that was found at a path.
    pub fn visit(&mut self, path: &str, identity: EventNodeIdentity, now: u64) -> (r: Visit)
        ensures
            (final(self)@, r) == visited(old(self)@, path@, identity, now),
    {
        let fresh = Visit::Open {
            device: InputDeviceId(self.next_device_id),
            retry_delay: self.scan_interval,
        };
        match self.nodes.copied(path) {
            None => fresh,
            Some(NodeState::Open { device, identity: known }) => {
                if known == identity {
                    return Visit::Leave;
                }
                self.nodes.remove(path);
                self.pending.push(InputEvent::Resync { device: Some(device) });
                fresh
            },
            Some(NodeState::Ignored { identity: known }) => {
                if known == identity {
                    return Visit::Leave;
                }
                self.nodes.remove(path);
                fresh
            },
            Some(NodeState::Failed { identity: known, retry_at, next_delay }) => {
                if known != identity {
                    self.nodes.remove(path);
                    return fresh;
                }
                if now < retry_at {
                    return Visit::Leave;
                }
                self.nodes.remove(path);
                Visit::Open {
                    device: InputDeviceId(self.next_device_id),
                    retry_delay: next_delay,
                }
            },
        }
    }

    /// Takes in what became of opening a node. Device identities can run out.
    pub fn opened(
        &mut self,
        path: &str,
        identity: EventNodeIdentity,
        outcome: Opened,
        retry_delay: u64,
        now: u64,
    ) -> (r: PlatformResult<()>)
        ensures
            final(self)@ == open_result(old(self)@, path@, identity, outcome, retry_delay, now),
            match r {
                Ok(()) => !(outcome is Touch && old(self)@.next_device_id == u64::MAX),
                Err(e) => {
                    &&& outcome is Touch && old(self)@.next_device_id == u64::MAX
                    &&& e@ == malformed(
                        old(self)@.root,
                        "input device identity space was exhausted"@,
                    )
                },
            },
    {
        match outcome {
            Opened::Touch => {
                let device = InputDeviceId(self.next_device_id);
                if self.next_device_id == u64::MAX {
                    return Err(
                        PlatformError::invalid(
                            self.root.as_str(),
                            "input device identity space was exhausted",
                        ),
                    );
                }
                self.next_device_id = self.next_device_id + 1;
                self.nodes.insert(path.to_owned(), NodeState::Open { device, identity });
                self.device_errors.remove(path);
            },
            Opened::Other => {
                self.nodes.insert(path.to_owned(), NodeState::Ignored { identity });
                self.device_errors.remove(path);
            },
            Opened::Failed(why) => {
                self.device_errors.insert(path.to_owned(), why);
                self.nodes.insert(
                    path.to_owned(),
                    NodeState::Failed {
                        identity,
                        retry_at: now.saturating_add(retry_delay),
                        next_delay: longer_pause(retry_delay),
                    },
                );
            },
        }
        Ok(())
    }

    /// Marks the end of a scan.
    pub fn scanned(&mut self, now: u64)
        ensures
            final(self)@ == (SourceView {
                next_scan: later(now, old(self)@.scan_interval),
                ..old(self)@
            }),
    {
        self.next_scan = now.saturating_add(self.scan_interval);
    }

    /// Takes in what became of reading a device, and says whether it is lost.
    pub fn polled(&mut self, path: &str, outcome: Polled) -> (is_lost: bool)
        ensures
            is_lost == (outcome is Failed),
            final(self)@ == (SourceView {
                errors: match outcome {
                    Polled::Read => old(self)@.errors.remove(path@),
                    Polled::Idle => old(self)@.errors,
                    Polled::Failed(why) => old(self)@.errors.insert(path@, why@),
                },
                ..old(self)@
            }),
    {
        match outcome {
            Polled::Read => {
                self.device_errors.remove(path);
                false
            },
            Polled::Idle => false,
            Polled::Failed(why) => {
                self.device_errors.insert(path.to_owned(), why);
                true
            },
        }
    }

    /// Closes devices that were lost, and puts off the next scan.
    pub fn disconnect(&mut self, paths: &Vec<String>, now: u64)
        ensures
            final(self)@ == (if paths@.len() == 0 {
                old(self)@
            } else {
                SourceView {
                    next_scan: later(now, old(self)@.scan_interval),
                    ..all_lost(old(self)@, texts(paths@), paths@.len(), now)
                }
            }),
    {
        if paths.len() == 0 {
            return;
        }
        let ghost start = self@;
        let ghost p = texts(paths@);
        let mut i: usize = 0;
        while i < paths.len()
            invariant
                i <= paths@.len(),
                p == texts(paths@),
                self@ == all_lost(start, p, i as nat, now),
            decreases paths@.len() - i,
        {
            assert(p[i as int] == paths@[i as int]@);
            let path = paths[i].as_str();
            if let Some(NodeState::Open { device, identity }) = self.nodes.copied(path) {
                self.pending.push(InputEvent::Resync { device: Some(device) });
                self.nodes.insert(
                    path.to_owned(),
                    NodeState::Failed {
                        identity,
                        retry_at: now.saturating_add(self.scan_interval),
                        next_delay: longer_pause(self.scan_interval),
                    },
                );
            }
            i = i + 1;
        }
        proof {
            losing_keeps_intervals(start, p, p.len(), now);
        }
        self.next_scan = now.saturating_add(self.scan_interval);
    }

    /// The pause before the next poll: short while there is input, longer and
    /// longer without.
    pub fn next_idle(&self, idle: u64, active: bool) -> (r: u64)
        ensures
            r == (if active {
                self@.poll_interval
            } else if idle * 2 > MAX_IDLE_POLL_INTERVAL {
                MAX_IDLE_POLL_INTERVAL
            } else {
                (idle * 2) as u64
            }),
    {
        if active {
            self.poll_interval
        } else if idle > MAX_IDLE_POLL_INTERVAL / 2 {
            MAX_IDLE_POLL_INTERVAL
        } else {
            idle * 2
        }
    }

    /// How long to sleep: up to the next scan, and no longer than the pause
    /// while devices are open.
    pub fn sleep_for(&self, idle: u64, devices_open: bool, now: u64) -> (r: u64)
        ensures
            r == sleep_time(self@.next_scan, idle, devices_open, now),
    {
        let until: u64 = if self.next_scan > now {
            self.next_scan - now
        } else {
            0
        };
        if devices_open && idle < until {
            idle
        } else {
            until
        }
    }
}

proof fn losing_keeps_intervals(v: SourceView, paths: Seq<Seq<char>>, n: nat, now: u64)
    ensures
        all_lost(v, paths, n, now).scan_interval == v.scan_interval,
    decreases n,
{
    if n > 0 {
        losing_keeps_intervals(v, paths, (n - 1) as nat, now);
    }
}

/// Whether each open device has an identity that was given out before.
pub open spec fn identities_given(v: SourceView) -> bool {
    forall|p: Seq<char>|
        v.nodes.dom().contains(p) ==> match #[trigger] v.nodes[p] {
            NodeState::Open { device, identity } => device.0 < v.next_device_id,
            _ => true,
        }
}

/// A device gets an identity that no other device has or had: identities are
/// given out once, in ascending order.
pub proof fn identities_are_never_reused(
    v: SourceView,
    path: Seq<char>,
    identity: EventNodeIdentity,
    outcome: Opened,
    retry_delay: u64,
    now: u64,
)
    requires
        identities_given(v),
    ensures
        ({
            let w = open_result(v, path, identity, outcome, retry_delay, now);
            &&& identities_given(w)
            &&& w.next_device_id >= v.next_device_id
            &&& outcome is Touch && v.next_device_id < u64::MAX ==> w.nodes[path] == (
            NodeState::Open { device: InputDeviceId(v.next_device_id), identity })
                && w.next_device_id > v.next_device_id
        }),
        match visited(v, path, identity, now).1 {
            Visit::Open { device, retry_delay: _ } => device.0 == v.next_device_id,
            Visit::Leave => true,
        },
{
    let w = open_result(v, path, identity, outcome, retry_delay, now);
    assert forall|p: Seq<char>| w.nodes.dom().contains(p) implies match #[trigger] w.nodes[p] {
        NodeState::Open { device, identity } => device.0 < w.next_device_id,
        _ => true,
    } by {
        if p != path {
            assert(w.nodes[p] == v.nodes[p]);
        } else if w.nodes == v.nodes {
            assert(v.nodes.dom().contains(p));
        }
    }
}

/// A node that failed is left alone until its time, or until another instance
/// takes its path, which is tried at once and starts with the shortest pause.
pub proof fn failed_node_is_backed_off(
    v: SourceView,
    path: Seq<char>,
    identity: EventNodeIdentity,
    why: String,
    retry_delay: u64,
    now: u64,
    other: EventNodeIdentity,
    at: u64,
)
    ensures
        ({
            let w = open_result(v, path, identity, Opened::Failed(why), retry_delay, now);
            &&& at < later(now, retry_delay) ==> visited(w, path, identity, at) == (w, Visit::Leave)
            &&& at >= later(now, retry_delay) ==> visited(w, path, identity, at).1 == (
            Visit::Open {
                device: InputDeviceId(v.next_device_id),
                retry_delay: longer(retry_delay),
            })
            &&& other != identity ==> visited(w, path, other, at).1 == (Visit::Open {
                device: InputDeviceId(v.next_device_id),
                retry_delay: v.scan_interval,
            })
        }),
{
}

/// The pause before a failed node is tried again grows, up to its bound.
pub proof fn pauses_grow_to_a_bound(pause: u64)
    ensures
        longer(pause) <= MAX_DEVICE_RETRY_INTERVAL,
        pause <= MAX_DEVICE_RETRY_INTERVAL ==> longer(pause) >= pause,
{
}

/// How many of the first `n` paths are those of open devices.
pub open spec fn open_count(keys: Seq<Seq<char>>, nodes: Map<Seq<char>, NodeState>, n: nat) -> nat
    decreases n,
{
    if n == 0 {
        0
    } else {
        open_count(keys, nodes, (n - 1) as nat) + (if nodes[keys[n - 1]] is Open {
            1nat
        } else {
            0nat
        })
    }
}

impl EvdevInputSource {
    /// Number of currently open touch devices.
    pub fn device_count(&self) -> (r: usize)
        ensures
            exists|keys: Seq<Seq<char>>|
                {
                    &&& #[trigger] texts_ascending(keys)
                    &&& keys.to_set() == self@.nodes.dom()
                    &&& r == open_count(keys, self@.nodes, keys.len())
                },
    {
        let count: usize = self.nodes.len();
        let ghost keys = self.nodes.keys();
        let mut r: usize = 0;
        let mut i: usize = 0;
        while i < count
            invariant
                i <= count,
                r <= i,
                count == keys.len(),
                keys == self.nodes.keys(),
                r == open_count(keys, self@.nodes, i as nat),
            decreases count - i,
        {
            if let NodeState::Open { device: _, identity: _ } = *self.nodes.value_at(i) {
                r = r + 1;
            }
            i = i + 1;
        }
        proof {
            assert(keys.to_set() =~= self@.nodes.dom());
        }
        r
    }
}

/// What taking in kernel events came to: the machine, the events given, the
/// position reached, and whether the machine is to be rebuilt there.
pub struct Fed {
    pub machine: TouchView,
    pub given: Seq<InputEvent>,
    pub reached: int,
    pub rebuild: bool,
}

/// What taking in kernel events from position `k` on comes to. It ends behind an
/// event after which the machine is to be rebuilt.
pub open spec fn fed(v: TouchView, given: Seq<InputEvent>, all: Seq<KernelEvent>, k: int) -> Fed
    decreases all.len() - k,
{
    if k < 0 || k >= all.len() {
        Fed { machine: v, given, reached: k, rebuild: false }
    } else {
        match raw_event(all[k]) {
            None => fed(v, given, all, k + 1),
            Some(event) => {
                let (w, out) = handled(v, event);
                if v.desynchronized && event == RawTouchEvent::SyncReport && !w.desynchronized {
                    Fed { machine: w, given: given + out, reached: k + 1, rebuild: true }
                } else {
                    fed(w, given + out, all, k + 1)
                }
            },
        }
    }
}

/// Takes in kernel events from a position on, and says how far it came. It stops
/// behind a report that ends a gap, so that the machine can be rebuilt from what
/// the kernel says of it, and otherwise at the end.
pub fn feed_events(
    machine: &mut TouchStateMachine,
    events: &Vec<KernelEvent>,
    from: usize,
    out: &mut Vec<InputEvent>,
) -> (r: (usize, bool))
    requires
        old(machine)@.fits(),
        from <= events@.len(),
    ensures
        (Fed {
            machine: final(machine)@,
            given: final(out)@,
            reached: r.0 as int,
            rebuild: r.1,
        }) == fed(old(machine)@, old(out)@, events@, from as int),
        final(machine)@.fits(),
        from <= r.0 <= events@.len(),
{
    let ghost start = machine@;
    let ghost given = out@;
    let mut k: usize = from;
    while k < events.len()
        invariant
            from <= k <= events@.len(),
            machine@.fits(),
            start == old(machine)@,
            given == old(out)@,
            fed(start, given, events@, from as int) == fed(machine@, out@, events@, k as int),
        decreases events@.len() - k,
    {
        if let Some(event) = map_evdev_event(events[k]) {
            let was = machine.is_desynchronized();
            let mut more = machine.handle(event);
            let ghost before = out@;
            let ghost added = more@;
            out.append(&mut more);
            assert(out@ =~= before + added);
            if wants_rebuild(was, event, machine.is_desynchronized()) {
                return (k + 1, true);
            }
        }
        k = k + 1;
    }
    (k, false)
}

} // verus!
