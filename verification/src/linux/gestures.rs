//! What touches and gestures are: which travel is a gesture, whatever axis it is
//! along, and where the events of a contact lie.

use vstd::prelude::*;
use crate::platform::{AxisShare, InputDeviceId, InputEvent, Point, TouchContactId};
use super::touch::{
    apart, edge_move, finished_events, gap, gesture, handled, held, inward, point_of, reach,
    refreshed, released_events, share_of, slot_place, touch_events, with_held, Contact,
    GestureConfig, RawTouchEvent, SlotContact, TouchAxes, TouchView, WHOLE,
};

verus! {

/// A point with its two axes exchanged.
pub open spec fn turned(p: Point) -> Point {
    Point { x: p.y, y: p.x }
}

/// A place on an axis, counted from its other end.
pub open spec fn mirrored(a: AxisShare) -> AxisShare {
    AxisShare { offset: (a.span - a.offset) as u32, span: a.span }
}

/// Whether two places on an axis are at least the given share of it apart, in
/// billionths, in either direction.
pub open spec fn travelled(a: AxisShare, b: AxisShare, distance: u32) -> bool {
    ||| (b.offset - a.offset) * WHOLE >= distance * a.span
    ||| (a.offset - b.offset) * WHOLE >= distance * a.span
}

/// The two axes count alike: exchanging them changes neither the distance of two
/// points nor whether a move leads inward from an edge.
pub proof fn both_axes_count_alike(a: Point, b: Point, distance: u32, config: GestureConfig)
    ensures
        apart(turned(a), turned(b), distance) == apart(a, b, distance),
        edge_move(turned(a), turned(b), config) == edge_move(a, b, config),
{
    let d = distance as int;
    let s = a.x.span as int;
    let t = a.y.span as int;
    assert(d * s * t == d * t * s) by (nonlinear_arith);
}

/// A distance is the same in both directions.
pub proof fn distance_has_no_direction(a: Point, b: Point, distance: u32)
    requires
        a.x.span == b.x.span,
        a.y.span == b.y.span,
    ensures
        apart(a, b, distance) == apart(b, a, distance),
{
}

/// The distance of two points is the length of the straight line between them, in
/// shares of the axes.
pub proof fn distance_is_a_straight_line(a: Point, b: Point, distance: u32)
    ensures
        apart(a, b, distance) <==> {
            let u = (a.x.offset - b.x.offset) * a.y.span;
            let w = (a.y.offset - b.y.offset) * a.x.span;
            let whole = distance as int * a.x.span as int * a.y.span as int;
            1_000_000_000int * 1_000_000_000int * (u * u + w * w) >= whole * whole
        },
{
    let u = (a.x.offset - b.x.offset) * a.y.span;
    let w = (a.y.offset - b.y.offset) * a.x.span;
    let dx = gap(a.x, b.x) * a.y.span;
    let dy = gap(a.y, b.y) * a.x.span;
    let gx = gap(a.x, b.x) as int;
    let gy = gap(a.y, b.y) as int;
    let sx = a.x.span as int;
    let sy = a.y.span as int;
    assert(gx == a.x.offset - b.x.offset || gx == -(a.x.offset - b.x.offset));
    assert(gy == a.y.offset - b.y.offset || gy == -(a.y.offset - b.y.offset));
    assert((-gx * sy) * (-gx * sy) == (gx * sy) * (gx * sy)) by (nonlinear_arith);
    assert((-gy * sx) * (-gy * sx) == (gy * sx) * (gy * sx)) by (nonlinear_arith);
    assert(u * u == dx * dx);
    assert(w * w == dy * dy);
}

/// Travel along one axis alone is enough, if it is the given share of that axis.
pub proof fn travel_along_one_axis_is_enough(a: Point, b: Point, distance: u32)
    requires
        travelled(a.x, b.x, distance) || travelled(a.y, b.y, distance),
    ensures
        apart(a, b, distance),
{
    let w = WHOLE as int;
    let d = distance as int;
    let sx = a.x.span as int;
    let sy = a.y.span as int;
    let gx = gap(a.x, b.x) as int;
    let gy = gap(a.y, b.y) as int;
    let dx = gx * sy;
    let dy = gy * sx;
    let whole = d * sx * sy;
    assert(0 <= d * sx && 0 <= d * sy) by (nonlinear_arith)
        requires
            0 <= d,
            0 <= sx,
            0 <= sy,
    ;
    if travelled(a.x, b.x, distance) {
        assert(w * gx >= d * sx) by (nonlinear_arith)
            requires
                (b.x.offset - a.x.offset) * w >= d * sx || (a.x.offset - b.x.offset) * w >= d * sx,
                gx == (if a.x.offset >= b.x.offset {
                    a.x.offset - b.x.offset
                } else {
                    b.x.offset - a.x.offset
                }),
                w == 1_000_000_000,
        ;
        assert(w * dx >= whole && whole >= 0) by (nonlinear_arith)
            requires
                w * gx >= d * sx,
                d * sx >= 0,
                sy >= 0,
                dx == gx * sy,
                whole == d * sx * sy,
        ;
        assert(w * w * (dx * dx + dy * dy) >= whole * whole) by (nonlinear_arith)
            requires
                w * dx >= whole,
                whole >= 0,
                w >= 0,
        ;
    } else {
        assert(w * gy >= d * sy) by (nonlinear_arith)
            requires
                (b.y.offset - a.y.offset) * w >= d * sy || (a.y.offset - b.y.offset) * w >= d * sy,
                gy == (if a.y.offset >= b.y.offset {
                    a.y.offset - b.y.offset
                } else {
                    b.y.offset - a.y.offset
                }),
                w == 1_000_000_000,
        ;
        assert(w * dy >= whole && whole >= 0) by (nonlinear_arith)
            requires
                w * gy >= d * sy,
                d * sy >= 0,
                sx >= 0,
                dy == gy * sx,
                whole == d * sx * sy,
        ;
        assert(w * w * (dx * dx + dy * dy) >= whole * whole) by (nonlinear_arith)
            requires
                w * dy >= whole,
                whole >= 0,
                w >= 0,
        ;
    }
}

/// Travel whose two shares together fall short of the distance is not enough.
pub proof fn short_travel_is_not_enough(a: Point, b: Point, distance: u32)
    requires
        ({
            let gx = if a.x.offset >= b.x.offset {
                a.x.offset - b.x.offset
            } else {
                b.x.offset - a.x.offset
            };
            let gy = if a.y.offset >= b.y.offset {
                a.y.offset - b.y.offset
            } else {
                b.y.offset - a.y.offset
            };
            WHOLE * (gx * a.y.span + gy * a.x.span) < distance * a.x.span * a.y.span
        }),
    ensures
        !apart(a, b, distance),
{
    let w = WHOLE as int;
    let gx = gap(a.x, b.x) as int;
    let gy = gap(a.y, b.y) as int;
    let dx = gx * a.y.span;
    let dy = gy * a.x.span;
    let whole = distance as int * a.x.span as int * a.y.span as int;
    assert(dx >= 0 && dy >= 0) by (nonlinear_arith)
        requires
            dx == gx * a.y.span,
            dy == gy * a.x.span,
            gx >= 0,
            gy >= 0,
    ;
    assert(w * w * (dx * dx + dy * dy) < whole * whole) by (nonlinear_arith)
        requires
            w * (dx + dy) < whole,
            dx >= 0,
            dy >= 0,
            w >= 0,
    ;
}

/// A raw value is a share of its axis from its lowest value on: the ends of the
/// axis are its ends, a value beyond them counts as the end, and a larger value
/// lies no nearer to the beginning.
pub proof fn shares_follow_the_axis(low: int, high: int, value: int, larger: int)
    requires
        i32::MIN <= low < high <= i32::MAX,
        value <= larger,
    ensures
        share_of(low, high, low).offset == 0,
        share_of(low, high, high).offset == share_of(low, high, high).span,
        share_of(low, high, value).span == high - low,
        low <= value <= high ==> share_of(low, high, value).offset == value - low,
        value < low ==> share_of(low, high, value).offset == 0,
        value > high ==> share_of(low, high, value).offset == high - low,
        share_of(low, high, value).offset <= share_of(low, high, larger).offset,
{
}

/// A point takes its first coordinate from the first axis and its second from the
/// second.
pub proof fn points_follow_their_axes(axes: TouchAxes, x: i32, y: i32)
    requires
        axes.x.low() <= x <= axes.x.high(),
        axes.y.low() <= y <= axes.y.high(),
        axes.x.low() < axes.x.high(),
        axes.y.low() < axes.y.high(),
    ensures
        point_of(axes, x, y).x.offset == x - axes.x.low(),
        point_of(axes, x, y).x.span == axes.x.high() - axes.x.low(),
        point_of(axes, x, y).y.offset == y - axes.y.low(),
        point_of(axes, x, y).y.span == axes.y.high() - axes.y.low(),
{
}

/// An edge gesture begins inside the band along an edge and leads away from that
/// edge by the smaller of the band's width and the swipe distance. Both ends of
/// an axis count alike, and without a band there is none.
pub proof fn edges_lead_inward(from: Point, to: Point, config: GestureConfig)
    requires
        from.x.offset <= from.x.span,
        to.x.offset <= to.x.span,
        from.x.span == to.x.span,
    ensures
        config.edge() == 0 ==> !edge_move(from, to, config),
        ({
            let least = if config.swipe() <= config.edge() {
                config.swipe()
            } else {
                config.edge()
            };
            &&& config.edge() > 0 && from.x.offset * WHOLE <= config.edge() * from.x.span && (
            to.x.offset - from.x.offset) * WHOLE >= least * from.x.span ==> edge_move(
                from,
                to,
                config,
            )
            &&& config.edge() > 0 && (from.x.span - from.x.offset) * WHOLE <= config.edge()
                * from.x.span && (from.x.offset - to.x.offset) * WHOLE >= least * from.x.span
                ==> edge_move(from, to, config)
            &&& inward(mirrored(from.x), mirrored(to.x), config.edge(), least) == inward(
                from.x,
                to.x,
                config.edge(),
                least,
            )
        }),
{
    assert(mirrored(to.x).offset - mirrored(from.x).offset == from.x.offset - to.x.offset);
}

/// A move that begins in the middle of both axes, outside of every band, is no
/// edge gesture.
pub proof fn the_middle_has_no_edge(from: Point, to: Point, config: GestureConfig)
    requires
        from.x.offset * WHOLE > config.edge() * from.x.span,
        (from.x.span - from.x.offset) * WHOLE > config.edge() * from.x.span,
        from.y.offset * WHOLE > config.edge() * from.y.span,
        (from.y.span - from.y.offset) * WHOLE > config.edge() * from.y.span,
    ensures
        !edge_move(from, to, config),
{
}

/// The events of a finished contact: a touch where none was given yet, its
/// release, both where it was last, and a gesture from where it began to where it
/// was farthest, exactly if it travelled far enough or came from an edge.
pub proof fn a_finished_contact_is_told(
    device: InputDeviceId,
    c: Contact,
    config: GestureConfig,
)
    requires
        c.start is Some,
        c.last is Some,
        c.farthest is Some,
    ensures
        ({
            let events = finished_events(device, c, config);
            let contact = TouchContactId { device, tracking_id: c.tracking_id };
            let at = c.last->0;
            &&& events.contains(InputEvent::TouchUp { contact, at })
            &&& !c.down_emitted ==> events[0] == (InputEvent::TouchDown { contact, at })
            &&& c.down_emitted ==> events[0] == (InputEvent::TouchUp { contact, at })
            &&& (c.edged || apart(c.start->0, c.farthest->0, config.swipe())) ==> events.last() == (
            InputEvent::Gesture { contact, from: c.start->0, to: c.farthest->0 })
            &&& !c.edged && !apart(c.start->0, c.farthest->0, config.swipe()) ==> events.last() == (
            InputEvent::TouchUp { contact, at })
        }),
{
    let events = finished_events(device, c, config);
    let contact = TouchContactId { device, tracking_id: c.tracking_id };
    let up = InputEvent::TouchUp { contact, at: c.last->0 };
    let k: int = if c.down_emitted {
        0
    } else {
        1
    };
    assert(events[k] == up);
}

/// Where a contact is farthest never lies nearer to its start than where it is.
proof fn farthest_is_no_nearer(c: Contact, axes: TouchAxes, config: GestureConfig)
    requires
        c.raw_x is Some,
        c.raw_y is Some,
        c.start is Some,
    ensures
        ({
            let d = refreshed(c, axes, config);
            let p = point_of(axes, c.raw_x->0, c.raw_y->0);
            &&& d.start == c.start
            &&& d.last == Some(p)
            &&& d.farthest is Some
            &&& apart(c.start->0, p, config.swipe()) ==> gesture(d, config)
        }),
{
    let d = refreshed(c, axes, config);
    let s = c.start->0;
    let p = point_of(axes, c.raw_x->0, c.raw_y->0);
    let w = WHOLE as int * WHOLE as int;
    assert(w * reach(s, d.farthest->0) >= w * reach(s, p)) by (nonlinear_arith)
        requires
            reach(s, d.farthest->0) >= reach(s, p),
            w >= 0,
    ;
}

proof fn same_slots_same_place(a: Seq<SlotContact>, b: Seq<SlotContact>, slot: i32, k: nat)
    requires
        a.len() == b.len(),
        forall|i: int| 0 <= i < a.len() ==> (#[trigger] a[i]).slot == b[i].slot,
    ensures
        slot_place(a, slot, k) == slot_place(b, slot, k),
    decreases a.len() - k,
{
    if k < a.len() {
        assert(a[k as int].slot == b[k as int].slot);
        same_slots_same_place(a, b, slot, k + 1);
    }
}

/// The place of a slot is within the row or at its end, and what stands before it
/// has a smaller slot.
proof fn place_is_within(all: Seq<SlotContact>, slot: i32, k: nat)
    requires
        k <= all.len(),
    ensures
        k <= slot_place(all, slot, k) <= all.len(),
        forall|i: int| k <= i < slot_place(all, slot, k) ==> (#[trigger] all[i]).slot < slot,
    decreases all.len() - k,
{
    if k < all.len() && slot > all[k as int].slot {
        place_is_within(all, slot, k + 1);
    }
}

proof fn place_is_found(all: Seq<SlotContact>, slot: i32, k: nat, at: nat)
    requires
        k <= at < all.len(),
        all[at as int].slot == slot,
        forall|i: int| 0 <= i < at ==> (#[trigger] all[i]).slot < slot,
    ensures
        slot_place(all, slot, k) == at,
    decreases at - k,
{
    if k < at {
        assert(all[k as int].slot < slot);
        place_is_found(all, slot, k + 1, at);
    }
}

/// A contact that is put into a slot is the one in it.
proof fn held_is_what_was_put(all: Seq<SlotContact>, slot: i32, c: Contact)
    ensures
        held(with_held(all, slot, c), slot) == Some(c),
{
    place_is_within(all, slot, 0);
    let k = slot_place(all, slot, 0);
    let next = with_held(all, slot, c);
    if held(all, slot) is Some {
        same_slots_same_place(next, all, slot, 0);
    } else {
        assert(next[k as int] == (SlotContact { slot, contact: c }));
        assert forall|i: int| 0 <= i < k implies (#[trigger] next[i]).slot < slot by {
            assert(next[i] == all[i]);
        }
        place_is_found(next, slot, 0, k);
    }
}

/// A contact that is moved and lifted gives its release where it was lifted. If
/// it travelled the swipe distance along either axis alone, whatever it did along
/// the other, it gives a gesture from where it began.
pub proof fn a_long_move_is_a_gesture(v: TouchView, slot: i32, c: Contact, x: i32, y: i32)
    requires
        !v.desynchronized,
        v.slot == Some(slot),
        held(v.held, slot) == Some(c),
        c.raw_x is Some,
        c.raw_y is Some,
        c.start is Some,
        c.farthest is Some,
        v.released.len() == 0,
    ensures
        ({
            let a = handled(v, RawTouchEvent::PositionX(x)).0;
            let b = handled(a, RawTouchEvent::PositionY(y)).0;
            let lifted = handled(b, RawTouchEvent::TrackingId(-1i32)).0;
            let events = handled(lifted, RawTouchEvent::SyncReport).1;
            let p = point_of(v.axes, x, y);
            let s = c.start->0;
            let contact = TouchContactId { device: v.device, tracking_id: c.tracking_id };
            &&& events.contains(InputEvent::TouchUp { contact, at: p })
            &&& (travelled(s.x, p.x, v.config.swipe()) || travelled(s.y, p.y, v.config.swipe()))
                ==> exists|i: int|
                0 <= i < events.len() && #[trigger] events[i] is Gesture
                    && events[i]->Gesture_contact == contact && events[i]->from == s
        }),
{
    let axes = v.axes;
    let config = v.config;
    let s = c.start->0;
    let p = point_of(axes, x, y);
    let c1 = refreshed(Contact { raw_x: Some(x), ..c }, axes, config);
    let c2 = refreshed(Contact { raw_y: Some(y), ..c1 }, axes, config);
    let a = handled(v, RawTouchEvent::PositionX(x)).0;
    held_is_what_was_put(v.held, slot, c1);
    assert(held(a.held, slot) == Some(c1));
    let b = handled(a, RawTouchEvent::PositionY(y)).0;
    held_is_what_was_put(a.held, slot, c2);
    assert(held(b.held, slot) == Some(c2));
    let lifted = handled(b, RawTouchEvent::TrackingId(-1i32)).0;
    assert(lifted.released =~= seq![c2]);
    let c3 = refreshed(c2, axes, config);
    farthest_is_no_nearer(Contact { raw_y: Some(y), ..c1 }, axes, config);
    farthest_is_no_nearer(c2, axes, config);
    assert(c3.start == Some(s) && c3.last == Some(p));
    let events = handled(lifted, RawTouchEvent::SyncReport).1;
    let told = finished_events(v.device, c3, config);
    assert(released_events(v.device, axes, config, lifted.released, 0) =~= Seq::empty());
    assert(released_events(v.device, axes, config, lifted.released, 1) =~= told);
    a_finished_contact_is_told(v.device, c3, config);
    let contact = TouchContactId { device: v.device, tracking_id: c.tracking_id };
    let up = InputEvent::TouchUp { contact, at: p };
    let k = choose|k: int| 0 <= k < told.len() && told[k] == up;
    assert(events[k] == up);
    if travelled(s.x, p.x, config.swipe()) || travelled(s.y, p.y, config.swipe()) {
        travel_along_one_axis_is_enough(s, p, config.swipe());
        assert(gesture(c3, config));
        let last = told.len() - 1;
        assert(events[last] == told[last]);
        assert(events[last] is Gesture);
    }
}

/// A new contact is told at the next report, where it is.
pub proof fn a_new_contact_is_told(v: TouchView, slot: i32, id: i32, x: i32, y: i32)
    requires
        !v.desynchronized,
        v.slot == Some(slot),
        held(v.held, slot) is None,
        id >= 0,
    ensures
        ({
            let a = handled(v, RawTouchEvent::TrackingId(id)).0;
            let b = handled(a, RawTouchEvent::PositionX(x)).0;
            let d = handled(b, RawTouchEvent::PositionY(y)).0;
            let events = handled(d, RawTouchEvent::SyncReport).1;
            events.contains(
                InputEvent::TouchDown {
                    contact: TouchContactId { device: v.device, tracking_id: id as u32 },
                    at: point_of(v.axes, x, y),
                },
            )
        }),
{
    let axes = v.axes;
    let config = v.config;
    let c0 = super::touch::fresh(id as u32);
    let c1 = refreshed(Contact { raw_x: Some(x), ..c0 }, axes, config);
    let c2 = refreshed(Contact { raw_y: Some(y), ..c1 }, axes, config);
    let a = handled(v, RawTouchEvent::TrackingId(id)).0;
    held_is_what_was_put(v.held, slot, c0);
    let b = handled(a, RawTouchEvent::PositionX(x)).0;
    held_is_what_was_put(a.held, slot, c1);
    let d = handled(b, RawTouchEvent::PositionY(y)).0;
    held_is_what_was_put(b.held, slot, c2);
    let k = slot_place(d.held, slot, 0) as int;
    place_is_within(d.held, slot, 0);
    assert(d.held[k].contact == c2);
    touch_is_told(v.device, axes, config, d.held, d.held.len(), k);
    let events = handled(d, RawTouchEvent::SyncReport).1;
    let r = released_events(v.device, axes, config, d.released, d.released.len());
    let t = touch_events(v.device, axes, config, d.held, d.held.len());
    let down = InputEvent::TouchDown {
        contact: TouchContactId { device: v.device, tracking_id: id as u32 },
        at: point_of(axes, x, y),
    };
    let i = choose|i: int| 0 <= i < t.len() && t[i] == down;
    assert(events[r.len() + i] == down);
}

proof fn touch_is_told(
    device: InputDeviceId,
    axes: TouchAxes,
    config: GestureConfig,
    all: Seq<SlotContact>,
    n: nat,
    k: int,
)
    requires
        0 <= k < n <= all.len(),
        !refreshed(all[k].contact, axes, config).down_emitted,
        refreshed(all[k].contact, axes, config).last is Some,
    ensures
        touch_events(device, axes, config, all, n).contains(
            InputEvent::TouchDown {
                contact: TouchContactId {
                    device,
                    tracking_id: refreshed(all[k].contact, axes, config).tracking_id,
                },
                at: refreshed(all[k].contact, axes, config).last->0,
            },
        ),
    decreases n,
{
    let c = refreshed(all[k].contact, axes, config);
    let down = InputEvent::TouchDown {
        contact: TouchContactId { device, tracking_id: c.tracking_id },
        at: c.last->0,
    };
    let t = touch_events(device, axes, config, all, n);
    let before = touch_events(device, axes, config, all, (n - 1) as nat);
    if k < n - 1 {
        touch_is_told(device, axes, config, all, (n - 1) as nat, k);
        let i = choose|i: int| 0 <= i < before.len() && before[i] == down;
        assert(t[i] == down);
    } else {
        assert(t[before.len() as int] == down);
    }
}

} // verus!
