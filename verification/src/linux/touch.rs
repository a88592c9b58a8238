//! The state machine that turns slot-based touch protocol events into touches
//! and gestures. It needs no device file, so recorded events can be replayed.

use vstd::prelude::*;
use crate::number::{billionths_text, format_billionths, format_i64, signed_text};
use crate::platform::{AxisShare, InputDeviceId, InputEvent, Point, TouchContactId};
use crate::text::{cat2, cat5};

verus! {

/// The whole of an axis, in the unit of the gesture thresholds.
pub const WHOLE: u32 = 1_000_000_000;

/// Inclusive raw coordinate or slot range that a device reports.
#[derive(Clone, Copy, Debug, PartialEq, Eq)]
pub struct AxisRange {
    minimum: i32,
    maximum: i32,
}

/// Axis ranges of a touch device.
#[derive(Clone, Copy, Debug, PartialEq, Eq)]
pub struct TouchAxes {
    pub x: AxisRange,
    pub y: AxisRange,
    pub slots: AxisRange,
}

/// Gesture thresholds as shares of an axis, in billionths.
#[derive(Clone, Copy, Debug, PartialEq, Eq, Structural)]
pub struct GestureConfig {
    swipe_distance: u32,
    edge_width: u32,
}

/// A touch device or gesture configuration that makes no sense.
#[derive(Clone, Copy, Debug, PartialEq, Eq, Structural)]
pub enum TouchConfigurationError {
    InvalidAxisRange { minimum: i32, maximum: i32 },
    InvalidSwipeDistance(u32),
    InvalidEdgeWidth(u32),
}

impl TouchConfigurationError {
    /// The message shown for this error.
    pub open spec fn text(self) -> Seq<char> {
        match self {
            TouchConfigurationError::InvalidAxisRange { minimum, maximum } => "axis maximum ("@
                + signed_text(maximum as int) + ") must not be smaller than minimum ("@
                + signed_text(minimum as int) + ")"@,
            TouchConfigurationError::InvalidSwipeDistance(d) =>
                "swipe distance must be finite and in (0, 1], got "@ + billionths_text(d as nat),
            TouchConfigurationError::InvalidEdgeWidth(w) =>
                "edge width must be finite and in [0, 0.5], got "@ + billionths_text(w as nat),
        }
    }

    /// The message shown for this error.
    pub fn message(&self) -> (out: String)
        ensures
            out@ == self.text(),
    {
        match *self {
            TouchConfigurationError::InvalidAxisRange { minimum, maximum } => {
                let a = format_i64(maximum as i64);
                let b = format_i64(minimum as i64);
                cat5(
                    "axis maximum (",
                    a.as_str(),
                    ") must not be smaller than minimum (",
                    b.as_str(),
                    ")",
                )
            },
            TouchConfigurationError::InvalidSwipeDistance(d) => {
                let n = format_billionths(d as u64);
                cat2("swipe distance must be finite and in (0, 1], got ", n.as_str())
            },
            TouchConfigurationError::InvalidEdgeWidth(w) => {
                let n = format_billionths(w as u64);
                cat2("edge width must be finite and in [0, 0.5], got ", n.as_str())
            },
        }
    }
}

/// A raw value as a share of its axis. The only point of a singleton axis is
/// its beginning.
pub open spec fn share_of(low: int, high: int, value: int) -> AxisShare {
    if low >= high {
        AxisShare { offset: 0, span: 1 }
    } else {
        AxisShare {
            offset: (if value < low {
                0
            } else if value > high {
                high - low
            } else {
                value - low
            }) as u32,
            span: (high - low) as u32,
        }
    }
}

impl AxisRange {
    /// The smallest value.
    pub closed spec fn low(self) -> i32 {
        self.minimum
    }

    /// The largest value.
    pub closed spec fn high(self) -> i32 {
        self.maximum
    }

    #[verifier::type_invariant]
    closed spec fn well_formed(self) -> bool {
        self.minimum <= self.maximum
    }

    /// A range, unless its ends are in the wrong order. A range of one value
    /// serves a device with exactly one slot.
    pub fn new(minimum: i32, maximum: i32) -> (r: Result<Self, TouchConfigurationError>)
        ensures
            match r {
                Ok(a) => minimum <= maximum && a.low() == minimum && a.high() == maximum,
                Err(e) => minimum > maximum && e == (TouchConfigurationError::InvalidAxisRange {
                    minimum,
                    maximum,
                }),
            },
    {
        if maximum < minimum {
            return Err(TouchConfigurationError::InvalidAxisRange { minimum, maximum });
        }
        Ok(AxisRange { minimum, maximum })
    }

    /// Smallest advertised raw value.
    pub fn minimum(self) -> (r: i32)
        ensures
            r == self.low(),
    {
        self.minimum
    }

    /// Largest advertised raw value.
    pub fn maximum(self) -> (r: i32)
        ensures
            r == self.high(),
    {
        self.maximum
    }

    /// Whether a value lies in the range.
    pub fn contains(self, value: i32) -> (r: bool)
        ensures
            r == (self.low() <= value <= self.high()),
    {
        self.minimum <= value && value <= self.maximum
    }

    /// A value as a share of the axis; values outside are moved to its ends.
    pub fn normalize(self, value: i32) -> (r: AxisShare)
        ensures
            r == share_of(self.low() as int, self.high() as int, value as int),
            0 < r.span,
            r.offset <= r.span,
    {
        proof {
            use_type_invariant(self);
        }
        let low: i64 = self.minimum as i64;
        let high: i64 = self.maximum as i64;
        let at: i64 = value as i64;
        if low >= high {
            AxisShare { offset: 0, span: 1 }
        } else {
            let offset: i64 = if at < low {
                0
            } else if at > high {
                high - low
            } else {
                at - low
            };
            AxisShare { offset: offset as u32, span: (high - low) as u32 }
        }
    }
}

impl GestureConfig {
    /// The distance that makes a swipe.
    pub closed spec fn swipe(self) -> u32 {
        self.swipe_distance
    }

    /// The width of the band along each edge.
    pub closed spec fn edge(self) -> u32 {
        self.edge_width
    }

    #[verifier::type_invariant]
    closed spec fn well_formed(self) -> bool {
        0 < self.swipe_distance <= WHOLE && self.edge_width <= 500_000_000
    }

    /// Thresholds, unless one is out of range.
    pub fn new(swipe_distance: u32, edge_width: u32) -> (r: Result<Self, TouchConfigurationError>)
        ensures
            match r {
                Ok(c) => {
                    &&& 0 < swipe_distance <= WHOLE
                    &&& edge_width <= 500_000_000
                    &&& c.swipe() == swipe_distance
                    &&& c.edge() == edge_width
                },
                Err(e) => if 0 < swipe_distance <= WHOLE {
                    edge_width > 500_000_000 && e == TouchConfigurationError::InvalidEdgeWidth(
                        edge_width,
                    )
                } else {
                    e == TouchConfigurationError::InvalidSwipeDistance(swipe_distance)
                },
            },
    {
        if !(0 < swipe_distance && swipe_distance <= WHOLE) {
            return Err(TouchConfigurationError::InvalidSwipeDistance(swipe_distance));
        }
        if edge_width > 500_000_000 {
            return Err(TouchConfigurationError::InvalidEdgeWidth(edge_width));
        }
        Ok(GestureConfig { swipe_distance, edge_width })
    }

    /// Ordinary swipe threshold.
    pub fn swipe_distance(self) -> (r: u32)
        ensures
            r == self.swipe(),
            0 < r <= WHOLE,
    {
        proof {
            use_type_invariant(self);
        }
        self.swipe_distance
    }

    /// Edge activation band.
    pub fn edge_width(self) -> (r: u32)
        ensures
            r == self.edge(),
            r <= 500_000_000,
    {
        proof {
            use_type_invariant(self);
        }
        self.edge_width
    }
}

impl Default for GestureConfig {
    fn default() -> (c: Self)
        ensures
            c.swipe() == 30_000_000,
            c.edge() == 30_000_000,
    {
        GestureConfig { swipe_distance: 30_000_000, edge_width: 30_000_000 }
    }
}

/// The part of the slot-based touch protocol that matters.
#[derive(Clone, Copy, Debug, PartialEq, Eq, Structural)]
pub enum RawTouchEvent {
    Slot(i32),
    TrackingId(i32),
    PositionX(i32),
    PositionY(i32),
    SyncReport,
    SyncDropped,
}

/// A finger on the surface.
#[derive(Clone, Copy, Debug, PartialEq, Eq, Structural)]
pub struct Contact {
    pub tracking_id: u32,
    pub raw_x: Option<i32>,
    pub raw_y: Option<i32>,
    pub start: Option<Point>,
    pub last: Option<Point>,
    /// The point farthest from the start.
    pub farthest: Option<Point>,
    /// Whether it moved inward from an edge far enough.
    pub edged: bool,
    pub down_emitted: bool,
}

/// How far two shares of one axis are apart, in steps.
pub open spec fn gap(a: AxisShare, b: AxisShare) -> nat {
    if a.offset >= b.offset {
        (a.offset - b.offset) as nat
    } else {
        (b.offset - a.offset) as nat
    }
}

/// The square of the distance of two points of one surface, as shares of the
/// axes, times the square of the product of the spans.
pub open spec fn reach(a: Point, b: Point) -> int {
    let dx = gap(a.x, b.x) * a.y.span;
    let dy = gap(a.y, b.y) * a.x.span;
    dx * dx + dy * dy
}

/// Whether two points are at least the given distance apart, in billionths.
pub open spec fn apart(a: Point, b: Point, distance: u32) -> bool {
    let whole = distance as int * a.x.span as int * a.y.span as int;
    WHOLE as int * WHOLE as int * reach(a, b) >= whole * whole
}

/// Whether a share moved up by at least the given part of the axis.
pub open spec fn moved_up(from: AxisShare, to: AxisShare, part: u32) -> bool {
    (to.offset - from.offset) * WHOLE >= part * from.span
}

/// Whether a share lies within the given part of the axis from its beginning.
pub open spec fn near_beginning(a: AxisShare, part: u32) -> bool {
    a.offset * WHOLE <= part * a.span
}

/// Whether a share lies within the given part of the axis from its end.
pub open spec fn near_end(a: AxisShare, part: u32) -> bool {
    (a.span - a.offset) * WHOLE <= part * a.span
}

/// Whether a move from one share to another leads inward from an edge band by
/// at least the threshold.
pub open spec fn inward(from: AxisShare, to: AxisShare, band: u32, threshold: u32) -> bool {
    ||| near_beginning(from, band) && moved_up(from, to, threshold)
    ||| near_end(from, band) && moved_up(to, from, threshold)
}

/// Whether a move leads inward from an edge far enough to be a gesture.
pub open spec fn edge_move(from: Point, to: Point, c: GestureConfig) -> bool {
    let threshold = if c.swipe() <= c.edge() {
        c.swipe()
    } else {
        c.edge()
    };
    c.edge() > 0 && (inward(from.x, to.x, c.edge(), threshold) || inward(
        from.y,
        to.y,
        c.edge(),
        threshold,
    ))
}

/// The point of raw coordinates.
pub open spec fn point_of(axes: TouchAxes, x: i32, y: i32) -> Point {
    Point {
        x: share_of(axes.x.low() as int, axes.x.high() as int, x as int),
        y: share_of(axes.y.low() as int, axes.y.high() as int, y as int),
    }
}

/// A contact at its present raw coordinates.
pub open spec fn refreshed(c: Contact, axes: TouchAxes, config: GestureConfig) -> Contact {
    match (c.raw_x, c.raw_y) {
        (Some(x), Some(y)) => {
            let p = point_of(axes, x, y);
            let start = match c.start {
                Some(s) => s,
                None => p,
            };
            Contact {
                start: Some(start),
                last: Some(p),
                farthest: Some(
                    match c.farthest {
                        Some(f) => if reach(start, p) > reach(start, f) {
                            p
                        } else {
                            f
                        },
                        None => p,
                    },
                ),
                edged: c.edged || edge_move(start, p, config),
                ..c
            }
        },
        _ => c,
    }
}

/// Whether a contact made a gesture.
pub open spec fn gesture(c: Contact, config: GestureConfig) -> bool {
    c.edged || match (c.start, c.farthest) {
        (Some(s), Some(f)) => apart(s, f, config.swipe()),
        _ => false,
    }
}

/// A new contact.
pub open spec fn fresh(tracking_id: u32) -> Contact {
    Contact {
        tracking_id,
        raw_x: None,
        raw_y: None,
        start: None,
        last: None,
        farthest: None,
        edged: false,
        down_emitted: false,
    }
}

/// The product of two numbers below two to the ninety-fifth, in two parts: the
/// second counts ones, the first counts two to the sixty-fourth.
fn wide_product(x: u128, y: u128) -> (r: (u128, u128))
    requires
        x < 0x8000_0000_0000_0000_0000_0000u128,
        y < 0x8000_0000_0000_0000_0000_0000u128,
    ensures
        r.1 < 0x1_0000_0000_0000_0000u128,
        r.0 * 0x1_0000_0000_0000_0000 + r.1 == x * y,
{
    let b: u128 = 0x1_0000_0000_0000_0000;
    let x1: u128 = x / b;
    let x0: u128 = x % b;
    let y1: u128 = y / b;
    let y0: u128 = y % b;
    assert(x == x1 * b + x0 && y == y1 * b + y0);
    assert(x1 < 0x8000_0000 && y1 < 0x8000_0000 && x0 < b && y0 < b);
    assert(x0 * y0 <= 0xffff_ffff_ffff_ffff * 0xffff_ffff_ffff_ffff && x1 * y0 < 0x8000_0000 * b
        && x0 * y1 < 0x8000_0000 * b && x1 * y1 < 0x8000_0000 * 0x8000_0000) by (nonlinear_arith)
        requires
            x1 < 0x8000_0000,
            y1 < 0x8000_0000,
            x0 <= 0xffff_ffff_ffff_ffff,
            y0 <= 0xffff_ffff_ffff_ffff,
            b == 0x1_0000_0000_0000_0000,
            0 <= x0,
            0 <= y0,
            0 <= x1,
            0 <= y1,
    ;
    let p: u128 = x0 * y0;
    let mid: u128 = x1 * y0 + x0 * y1 + p / b;
    let top: u128 = x1 * y1 * b + mid;
    let low: u128 = p % b;
    assert(p == (p / b) * b + low);
    assert((x1 * b + x0) * (y1 * b + y0) == (x1 * y1 * b + x1 * y0 + x0 * y1) * b + x0 * y0)
        by (nonlinear_arith);
    assert((x1 * y1 * b + x1 * y0 + x0 * y1 + p / b) * b == (x1 * y1 * b + x1 * y0 + x0 * y1) * b
        + (p / b) * b) by (nonlinear_arith);
    (top, low)
}

/// Whether the squares of two numbers add up to at least that of a third.
fn squares_reach(a: u128, b: u128, c: u128) -> (r: bool)
    requires
        a < 0x4000_0000_0000_0000_0000_0000u128,
        b < 0x4000_0000_0000_0000_0000_0000u128,
        c < 0x4000_0000_0000_0000_0000_0000u128,
    ensures
        r == (a * a + b * b >= c * c),
{
    if a >= c || b >= c {
        assert(a * a + b * b >= c * c) by (nonlinear_arith)
            requires
                a >= c || b >= c,
                a >= 0,
                b >= 0,
                c >= 0,
        ;
        return true;
    }
    let left = wide_product(b, b);
    let right = wide_product(c - a, c + a);
    assert((c - a) * (c + a) == c * c - a * a) by (nonlinear_arith);
    left.0 > right.0 || (left.0 == right.0 && left.1 >= right.1)
}

/// How far two shares are apart.
fn gap_of(a: AxisShare, b: AxisShare) -> (r: u32)
    ensures
        r == gap(a, b),
{
    if a.offset >= b.offset {
        a.offset - b.offset
    } else {
        b.offset - a.offset
    }
}

/// The product of two 32-bit numbers.
fn product(a: u32, b: u32) -> (r: u128)
    ensures
        r == a * b,
        r <= 0xffff_ffff * 0xffff_ffff,
{
    assert(a * b <= 0xffff_ffff * 0xffff_ffff) by (nonlinear_arith)
        requires
            a <= 0xffff_ffff,
            b <= 0xffff_ffff,
            0 <= a,
            0 <= b,
    ;
    a as u128 * b as u128
}

/// The square of a product of two 32-bit numbers.
fn squared(a: u128) -> (r: u128)
    requires
        a <= 0xffff_ffff * 0xffff_ffff,
    ensures
        r == a * a,
{
    assert(a * a <= (0xffff_ffff * 0xffff_ffff) * (0xffff_ffff * 0xffff_ffff)) by (nonlinear_arith)
        requires
            0 <= a <= 0xffff_ffff * 0xffff_ffff,
    ;
    a * a
}

/// Whether `p` is farther from the start than `q`.
fn is_farther(start: Point, p: Point, q: Point) -> (r: bool)
    ensures
        r == (reach(start, p) > reach(start, q)),
{
    let a: u128 = squared(product(gap_of(start.x, p.x), start.y.span));
    let b: u128 = squared(product(gap_of(start.y, p.y), start.x.span));
    let c: u128 = squared(product(gap_of(start.x, q.x), start.y.span));
    let d: u128 = squared(product(gap_of(start.y, q.y), start.x.span));
    if a >= c {
        if b >= d {
            a > c || b > d
        } else {
            a - c > d - b
        }
    } else {
        b >= d && b - d > c - a
    }
}

/// Whether two points are at least the given distance apart.
fn is_apart(p: Point, q: Point, distance: u32) -> (r: bool)
    requires
        distance <= WHOLE,
    ensures
        r == apart(p, q, distance),
{
    let dx: u128 = product(gap_of(p.x, q.x), p.y.span);
    let dy: u128 = product(gap_of(p.y, q.y), p.x.span);
    let area: u128 = product(p.x.span, p.y.span);
    assert(WHOLE * dx < 0x4000_0000_0000_0000_0000_0000 && WHOLE * dy
        < 0x4000_0000_0000_0000_0000_0000 && distance * area < 0x4000_0000_0000_0000_0000_0000)
        by (nonlinear_arith)
        requires
            0 <= dx <= 0xffff_ffff * 0xffff_ffff,
            0 <= dy <= 0xffff_ffff * 0xffff_ffff,
            0 <= area <= 0xffff_ffff * 0xffff_ffff,
            0 <= distance <= WHOLE,
            WHOLE == 1_000_000_000,
    ;
    let a: u128 = WHOLE as u128 * dx;
    let b: u128 = WHOLE as u128 * dy;
    let c: u128 = distance as u128 * area;
    proof {
        let w = WHOLE as int;
        let x = dx as int;
        let y = dy as int;
        assert((w * x) * (w * x) + (w * y) * (w * y) == w * w * (x * x + y * y))
            by (nonlinear_arith);
        assert(distance as int * (p.x.span as int * p.y.span as int) == distance as int
            * p.x.span as int * p.y.span as int) by (nonlinear_arith);
    }
    squares_reach(a, b, c)
}

/// Whether a share moved up by at least the given part of the axis.
fn is_moved_up(from: AxisShare, to: AxisShare, part: u32) -> (r: bool)
    ensures
        r == moved_up(from, to, part),
{
    if to.offset >= from.offset {
        let steps: u128 = product(to.offset - from.offset, WHOLE);
        steps >= product(part, from.span)
    } else {
        let bound: u128 = product(part, from.span);
        assert((to.offset - from.offset) * WHOLE < 0) by (nonlinear_arith)
            requires
                to.offset < from.offset,
                WHOLE == 1_000_000_000,
        ;
        assert(part * from.span >= 0);
        false
    }
}

/// Whether a move leads inward from an edge band.
fn is_inward(from: AxisShare, to: AxisShare, band: u32, threshold: u32) -> (r: bool)
    requires
        from.offset <= from.span,
        to.span == from.span,
    ensures
        r == inward(from, to, band, threshold),
{
    let width: u128 = product(band, from.span);
    (product(from.offset, WHOLE) <= width && is_moved_up(from, to, threshold)) || (product(
        from.span - from.offset,
        WHOLE,
    ) <= width && is_moved_up(to, from, threshold))
}

/// Whether a move leads inward from an edge far enough.
fn is_edge_move(from: Point, to: Point, config: GestureConfig) -> (r: bool)
    requires
        from.x.offset <= from.x.span,
        from.y.offset <= from.y.span,
        to.x.span == from.x.span,
        to.y.span == from.y.span,
    ensures
        r == edge_move(from, to, config),
{
    let swipe: u32 = config.swipe_distance();
    let band: u32 = config.edge_width();
    let threshold: u32 = if swipe <= band {
        swipe
    } else {
        band
    };
    band > 0 && (is_inward(from.x, to.x, band, threshold) || is_inward(
        from.y,
        to.y,
        band,
        threshold,
    ))
}

/// Whether a point is one of the surface.
pub open spec fn on_surface(p: Point, axes: TouchAxes) -> bool {
    let o = point_of(axes, 0, 0);
    &&& p.x.span == o.x.span
    &&& p.y.span == o.y.span
    &&& p.x.offset <= p.x.span
    &&& p.y.offset <= p.y.span
}

/// Whether the points of a contact are of the surface.
pub open spec fn contact_fits(c: Contact, axes: TouchAxes) -> bool {
    &&& c.start is Some <==> c.last is Some
    &&& c.start is Some <==> c.farthest is Some
    &&& c.start is Some ==> on_surface(c.start->0, axes) && on_surface(c.last->0, axes)
        && on_surface(c.farthest->0, axes)
}

impl Contact {
    fn new(tracking_id: u32) -> (c: Self)
        ensures
            c == fresh(tracking_id),
    {
        Contact {
            tracking_id,
            raw_x: None,
            raw_y: None,
            start: None,
            last: None,
            farthest: None,
            edged: false,
            down_emitted: false,
        }
    }

    fn refresh_point(self, axes: TouchAxes, config: GestureConfig) -> (c: Self)
        requires
            contact_fits(self, axes),
        ensures
            c == refreshed(self, axes, config),
            contact_fits(c, axes),
    {
        match (self.raw_x, self.raw_y) {
            (Some(x), Some(y)) => {
                let origin = Point { x: axes.x.normalize(0), y: axes.y.normalize(0) };
                let p = Point { x: axes.x.normalize(x), y: axes.y.normalize(y) };
                assert(on_surface(p, axes));
                let start = match self.start {
                    Some(s) => s,
                    None => p,
                };
                let farthest = match self.farthest {
                    Some(f) => if is_farther(start, p, f) {
                        p
                    } else {
                        f
                    },
                    None => p,
                };
                let edged = self.edged || is_edge_move(start, p, config);
                Contact {
                    start: Some(start),
                    last: Some(p),
                    farthest: Some(farthest),
                    edged,
                    ..self
                }
            },
            _ => self,
        }
    }

    fn is_gesture(&self, config: GestureConfig) -> (r: bool)
        ensures
            r == gesture(*self, config),
    {
        if self.edged {
            return true;
        }
        match (self.start, self.farthest) {
            (Some(s), Some(f)) => {
                let swipe: u32 = config.swipe_distance();
                is_apart(s, f, swipe)
            },
            _ => false,
        }
    }
}

/// A contact and its slot.
#[derive(Clone, Copy, Debug, PartialEq, Eq, Structural)]
pub struct SlotContact {
    pub slot: i32,
    pub contact: Contact,
}

/// The events that a finished contact gives: its touch if none was given yet,
/// its release, and its gesture if it made one. A contact that never had a
/// position gives none.
pub open spec fn finished_events(device: InputDeviceId, c: Contact, config: GestureConfig) -> Seq<
    InputEvent,
> {
    match c.last {
        None => Seq::empty(),
        Some(at) => {
            let contact = TouchContactId { device, tracking_id: c.tracking_id };
            let down = if c.down_emitted {
                Seq::empty()
            } else {
                seq![InputEvent::TouchDown { contact, at }]
            };
            let up = down.push(InputEvent::TouchUp { contact, at });
            if gesture(c, config) {
                up.push(
                    InputEvent::Gesture {
                        contact,
                        from: match c.start {
                            Some(s) => s,
                            None => at,
                        },
                        to: match c.farthest {
                            Some(f) => f,
                            None => at,
                        },
                    },
                )
            } else {
                up
            }
        },
    }
}

/// The events that the first `n` released contacts give.
pub open spec fn released_events(
    device: InputDeviceId,
    axes: TouchAxes,
    config: GestureConfig,
    all: Seq<Contact>,
    n: nat,
) -> Seq<InputEvent>
    decreases n,
{
    if n == 0 {
        Seq::empty()
    } else {
        released_events(device, axes, config, all, (n - 1) as nat) + finished_events(
            device,
            refreshed(all[n - 1], axes, config),
            config,
        )
    }
}

/// A held contact after a report.
pub open spec fn reported(c: Contact, axes: TouchAxes, config: GestureConfig) -> Contact {
    let r = refreshed(c, axes, config);
    Contact { down_emitted: r.down_emitted || r.last is Some, ..r }
}

/// The held contacts after a report.
pub open spec fn all_reported(all: Seq<SlotContact>, axes: TouchAxes, config: GestureConfig) -> Seq<
    SlotContact,
> {
    all.map_values(
        |s: SlotContact| SlotContact { slot: s.slot, contact: reported(s.contact, axes, config) },
    )
}

/// The touches that a report gives for the first `n` held contacts.
pub open spec fn touch_events(
    device: InputDeviceId,
    axes: TouchAxes,
    config: GestureConfig,
    all: Seq<SlotContact>,
    n: nat,
) -> Seq<InputEvent>
    decreases n,
{
    if n == 0 {
        Seq::empty()
    } else {
        let before = touch_events(device, axes, config, all, (n - 1) as nat);
        let c = refreshed(all[n - 1].contact, axes, config);
        match c.last {
            Some(at) if !c.down_emitted => before.push(
                InputEvent::TouchDown {
                    contact: TouchContactId { device, tracking_id: c.tracking_id },
                    at,
                },
            ),
            _ => before,
        }
    }
}

/// Where a slot stands among the held contacts from `k` on, or would stand.
pub open spec fn slot_place(all: Seq<SlotContact>, slot: i32, k: nat) -> nat
    decreases all.len() - k,
{
    if k >= all.len() || slot <= all[k as int].slot {
        k
    } else {
        slot_place(all, slot, k + 1)
    }
}

/// The contact in a slot.
pub open spec fn held(all: Seq<SlotContact>, slot: i32) -> Option<Contact> {
    let k = slot_place(all, slot, 0) as int;
    if k < all.len() && all[k].slot == slot {
        Some(all[k].contact)
    } else {
        None
    }
}

/// The held contacts with one in a slot, in place of what was there.
pub open spec fn with_held(all: Seq<SlotContact>, slot: i32, contact: Contact) -> Seq<SlotContact> {
    let k = slot_place(all, slot, 0) as int;
    if held(all, slot) is Some {
        all.update(k, SlotContact { slot, contact })
    } else {
        all.insert(k, SlotContact { slot, contact })
    }
}

/// The held contacts without that in a slot.
pub open spec fn without_held(all: Seq<SlotContact>, slot: i32) -> Seq<SlotContact> {
    if held(all, slot) is Some {
        all.remove(slot_place(all, slot, 0) as int)
    } else {
        all
    }
}

/// The touch state machine of one device.
#[derive(Debug)]
pub struct TouchStateMachine {
    device_id: InputDeviceId,
    axes: TouchAxes,
    config: GestureConfig,
    current_slot: Option<i32>,
    slots: Vec<SlotContact>,
    pending_releases: Vec<Contact>,
    desynchronized: bool,
}

/// The view of [`TouchStateMachine`].
pub struct TouchView {
    pub device: InputDeviceId,
    pub axes: TouchAxes,
    pub config: GestureConfig,
    /// The slot that events speak of, unless it is out of range.
    pub slot: Option<i32>,
    /// Held contacts in the order of their slots.
    pub held: Seq<SlotContact>,
    /// Contacts released since the last report.
    pub released: Seq<Contact>,
    pub desynchronized: bool,
}

impl TouchView {
    /// Whether slots are in order and in range, and all points are of the
    /// surface.
    pub open spec fn fits(self) -> bool {
        &&& forall|i: int, j: int| 0 <= i < j < self.held.len() ==> self.held[i].slot < self.held[j].slot
        &&& forall|i: int|
            0 <= i < self.held.len() ==> self.axes.slots.low() <= (#[trigger] self.held[i]).slot
                <= self.axes.slots.high()
        &&& forall|i: int|
            0 <= i < self.held.len() ==> contact_fits(
                (#[trigger] self.held[i]).contact,
                self.axes,
            )
        &&& forall|i: int|
            0 <= i < self.released.len() ==> contact_fits(#[trigger] self.released[i], self.axes)
        &&& match self.slot {
            Some(s) => self.axes.slots.low() <= s <= self.axes.slots.high(),
            None => true,
        }
    }

    /// The machine with no contacts, at its first slot.
    pub open spec fn emptied(self, desynchronized: bool) -> Self {
        TouchView {
            slot: Some(self.axes.slots.low()),
            held: Seq::empty(),
            released: Seq::empty(),
            desynchronized,
            ..self
        }
    }
}

/// A tracking number in the current slot: `-1` releases its contact, a new
/// number replaces it.
pub open spec fn followed(v: TouchView, id: i32) -> TouchView {
    match v.slot {
        None => v,
        Some(slot) => {
            let now = held(v.held, slot);
            if id == -1 {
                match now {
                    Some(c) => TouchView {
                        held: without_held(v.held, slot),
                        released: v.released.push(c),
                        ..v
                    },
                    None => v,
                }
            } else if id < 0 || (now is Some && now->0.tracking_id == id) {
                v
            } else {
                TouchView {
                    held: with_held(v.held, slot, fresh(id as u32)),
                    released: match now {
                        Some(c) => v.released.push(c),
                        None => v.released,
                    },
                    ..v
                }
            }
        },
    }
}

/// New raw coordinates of the contact in the current slot.
pub open spec fn moved(v: TouchView, x: Option<i32>, y: Option<i32>) -> TouchView {
    match v.slot {
        None => v,
        Some(slot) => match held(v.held, slot) {
            None => v,
            Some(c) => {
                let d = Contact {
                    raw_x: if x is Some {
                        x
                    } else {
                        c.raw_x
                    },
                    raw_y: if y is Some {
                        y
                    } else {
                        c.raw_y
                    },
                    ..c
                };
                TouchView { held: with_held(v.held, slot, refreshed(d, v.axes, v.config)), ..v }
            },
        },
    }
}

/// A report: releases first, then new touches in the order of their slots.
pub open spec fn committed(v: TouchView) -> (TouchView, Seq<InputEvent>) {
    (
        TouchView {
            held: all_reported(v.held, v.axes, v.config),
            released: Seq::empty(),
            ..v
        },
        released_events(v.device, v.axes, v.config, v.released, v.released.len()) + touch_events(
            v.device,
            v.axes,
            v.config,
            v.held,
            v.held.len(),
        ),
    )
}

/// What an event does, and the events that it gives.
pub open spec fn handled(v: TouchView, event: RawTouchEvent) -> (TouchView, Seq<InputEvent>) {
    match event {
        RawTouchEvent::SyncDropped => (
            v.emptied(true),
            seq![InputEvent::Resync { device: Some(v.device) }],
        ),
        _ => if v.desynchronized {
            (
                TouchView { desynchronized: event != RawTouchEvent::SyncReport, ..v },
                Seq::empty(),
            )
        } else {
            match event {
                RawTouchEvent::Slot(s) => (
                    TouchView {
                        slot: if v.axes.slots.low() <= s <= v.axes.slots.high() {
                            Some(s)
                        } else {
                            None
                        },
                        ..v
                    },
                    Seq::empty(),
                ),
                RawTouchEvent::TrackingId(id) => (followed(v, id), Seq::empty()),
                RawTouchEvent::PositionX(x) => (moved(v, Some(x), None), Seq::empty()),
                RawTouchEvent::PositionY(y) => (moved(v, None, Some(y)), Seq::empty()),
                _ => committed(v),
            }
        },
    }
}

/// A machine rebuilt from what the kernel says of its only slot.
pub open spec fn rebuilt(v: TouchView, id: i32, x: i32, y: i32) -> (TouchView, Seq<InputEvent>) {
    let clean = v.emptied(false);
    if id < 0 {
        (clean, Seq::empty())
    } else {
        committed(
            TouchView {
                held: seq![
                    SlotContact {
                        slot: v.axes.slots.low(),
                        contact: Contact { raw_x: Some(x), raw_y: Some(y), ..fresh(id as u32) },
                    },
                ],
                ..clean
            },
        )
    }
}

proof fn place_is_first(all: Seq<SlotContact>, slot: i32, k: nat)
    requires
        k <= all.len(),
    ensures
        k <= slot_place(all, slot, k) <= all.len(),
        forall|i: int| k <= i < slot_place(all, slot, k) ==> (#[trigger] all[i]).slot < slot,
        slot_place(all, slot, k) < all.len() ==> slot <= all[slot_place(all, slot, k) as int].slot,
    decreases all.len() - k,
{
    if k < all.len() && !(slot <= all[k as int].slot) {
        place_is_first(all, slot, k + 1);
    }
}

/// Appends the events of a finished contact.
fn append_finished_contact(
    output: &mut Vec<InputEvent>,
    device: InputDeviceId,
    contact: Contact,
    config: GestureConfig,
)
    ensures
        final(output)@ == old(output)@ + finished_events(device, contact, config),
{
    let ghost before = output@;
    let at = match contact.last {
        None => {
            assert(output@ =~= before + Seq::<InputEvent>::empty());
            return;
        },
        Some(p) => p,
    };
    let id = TouchContactId { device, tracking_id: contact.tracking_id };
    if !contact.down_emitted {
        output.push(InputEvent::TouchDown { contact: id, at });
    }
    output.push(InputEvent::TouchUp { contact: id, at });
    if contact.is_gesture(config) {
        let from = match contact.start {
            Some(s) => s,
            None => at,
        };
        let to = match contact.farthest {
            Some(f) => f,
            None => at,
        };
        output.push(InputEvent::Gesture { contact: id, from, to });
    }
    assert(output@ =~= before + finished_events(device, contact, config));
}

impl View for TouchStateMachine {
    type V = TouchView;

    closed spec fn view(&self) -> TouchView {
        TouchView {
            device: self.device_id,
            axes: self.axes,
            config: self.config,
            slot: self.current_slot,
            held: self.slots@,
            released: self.pending_releases@,
            desynchronized: self.desynchronized,
        }
    }
}

impl TouchStateMachine {
    /// A clean machine for one device.
    pub fn new(device_id: InputDeviceId, axes: TouchAxes, config: GestureConfig) -> (m: Self)
        ensures
            m@ == (TouchView {
                device: device_id,
                axes,
                config,
                slot: Some(axes.slots.low()),
                held: Seq::empty(),
                released: Seq::empty(),
                desynchronized: false,
            }),
            m@.fits(),
    {
        proof {
            use_type_invariant(axes.slots);
        }
        let m = TouchStateMachine {
            device_id,
            axes,
            config,
            current_slot: Some(axes.slots.minimum()),
            slots: Vec::new(),
            pending_releases: Vec::new(),
            desynchronized: false,
        };
        assert(m@.held =~= Seq::empty());
        assert(m@.released =~= Seq::empty());
        m
    }

    /// Takes one protocol event. Touches and releases come with the next
    /// report; a dropped frame discards all contacts at once, and what follows
    /// it is ignored up to the next report.
    pub fn handle(&mut self, event: RawTouchEvent) -> (out: Vec<InputEvent>)
        requires
            old(self)@.fits(),
        ensures
            (final(self)@, out@) == handled(old(self)@, event),
            final(self)@.fits(),
    {
        let nothing: Vec<InputEvent> = Vec::new();
        assert(nothing@ =~= Seq::empty());
        if let RawTouchEvent::SyncDropped = event {
            self.clear(true);
            let mut out: Vec<InputEvent> = Vec::new();
            out.push(InputEvent::Resync { device: Some(self.device_id) });
            assert(out@ =~= seq![InputEvent::Resync { device: Some(old(self)@.device) }]);
            return out;
        }
        if self.desynchronized {
            if let RawTouchEvent::SyncReport = event {
                self.desynchronized = false;
            }
            return nothing;
        }
        match event {
            RawTouchEvent::Slot(slot) => {
                let known = if self.axes.slots.contains(slot) {
                    Some(slot)
                } else {
                    None
                };
                self.current_slot = known;
                nothing
            },
            RawTouchEvent::TrackingId(id) => {
                self.handle_tracking_id(id);
                nothing
            },
            RawTouchEvent::PositionX(x) => {
                self.update_position(Some(x), None);
                nothing
            },
            RawTouchEvent::PositionY(y) => {
                self.update_position(None, Some(y));
                nothing
            },
            _ => self.commit_frame(),
        }
    }

    /// Number of contacts currently held on this device.
    pub fn active_contacts(&self) -> (n: usize)
        ensures
            n == self@.held.len(),
    {
        self.slots.len()
    }

    /// Whether events are ignored until the report after a dropped frame.
    pub fn is_desynchronized(&self) -> (r: bool)
        ensures
            r == self@.desynchronized,
    {
        self.desynchronized
    }

    /// The device of this machine.
    pub fn device_id(&self) -> (r: InputDeviceId)
        ensures
            r == self@.device,
    {
        self.device_id
    }

    /// The axes of this machine.
    pub fn axes(&self) -> (r: TouchAxes)
        ensures
            r == self@.axes,
    {
        self.axes
    }

    /// Rebuilds a device with a single slot from what the kernel says of it
    /// after a dropped frame. A negative tracking number means that nothing
    /// touches the surface.
    pub fn rebuild_single_slot(&mut self, tracking_id: i32, raw_x: i32, raw_y: i32) -> (out: Vec<
        InputEvent,
    >)
        ensures
            (final(self)@, out@) == rebuilt(old(self)@, tracking_id, raw_x, raw_y),
            final(self)@.fits(),
    {
        self.clear(false);
        if tracking_id < 0 {
            let nothing: Vec<InputEvent> = Vec::new();
            assert(nothing@ =~= Seq::empty());
            return nothing;
        }
        let contact = Contact {
            raw_x: Some(raw_x),
            raw_y: Some(raw_y),
            ..Contact::new(tracking_id as u32)
        };
        proof {
            use_type_invariant(self.axes.slots);
        }
        let slot: i32 = self.axes.slots.minimum();
        self.slots.push(SlotContact { slot, contact });
        assert(self@.held =~= seq![SlotContact { slot, contact }]);
        self.commit_frame()
    }

    fn clear(&mut self, desynchronized: bool)
        ensures
            final(self)@ == old(self)@.emptied(desynchronized),
            final(self)@.fits(),
    {
        proof {
            use_type_invariant(self.axes.slots);
        }
        self.slots = Vec::new();
        self.pending_releases = Vec::new();
        self.current_slot = Some(self.axes.slots.minimum());
        self.desynchronized = desynchronized;
        assert(self@.held =~= Seq::empty());
        assert(self@.released =~= Seq::empty());
    }

    /// Where a slot stands, or would stand.
    fn place(&self, slot: i32) -> (k: usize)
        ensures
            k == slot_place(self@.held, slot, 0),
            k <= self@.held.len(),
    {
        let mut k: usize = 0;
        while k < self.slots.len() && self.slots[k].slot < slot
            invariant
                k <= self.slots@.len(),
                self@.held == self.slots@,
                slot_place(self@.held, slot, 0) == slot_place(self@.held, slot, k as nat),
            decreases self.slots@.len() - k,
        {
            k = k + 1;
        }
        k
    }

    /// Puts a contact into a slot.
    fn put(&mut self, slot: i32, contact: Contact)
        requires
            old(self)@.fits(),
            old(self)@.axes.slots.low() <= slot <= old(self)@.axes.slots.high(),
            contact_fits(contact, old(self)@.axes),
        ensures
            final(self)@ == (TouchView {
                held: with_held(old(self)@.held, slot, contact),
                ..old(self)@
            }),
            final(self)@.fits(),
    {
        let k: usize = self.place(slot);
        let ghost before = self@;
        proof {
            place_is_first(before.held, slot, 0);
        }
        if k < self.slots.len() && self.slots[k].slot == slot {
            self.slots.set(k, SlotContact { slot, contact });
        } else {
            self.slots.insert(k, SlotContact { slot, contact });
        }
        proof {
            let after = self@.held;
            assert(after =~= with_held(before.held, slot, contact));
            assert forall|i: int, j: int| 0 <= i < j < after.len() implies after[i].slot
                < after[j].slot by {
                if before.held.len() < after.len() {
                    let a = if i < k {
                        i
                    } else {
                        i - 1
                    };
                    let b = if j < k {
                        j
                    } else {
                        j - 1
                    };
                    if i != k && j != k {
                        assert(before.held[a].slot < before.held[b].slot);
                    } else if i == k {
                        assert(k <= b);
                        assert(k < b ==> before.held[k as int].slot < before.held[b].slot);
                    } else {
                        assert(before.held[i].slot < slot);
                    }
                } else {
                    assert(before.held[i].slot < before.held[j].slot);
                }
            }
            assert forall|i: int| 0 <= i < after.len() implies contact_fits(
                (#[trigger] after[i]).contact,
                self@.axes,
            ) && self@.axes.slots.low() <= after[i].slot <= self@.axes.slots.high() by {
                if i != k {
                    let a = if i < k || before.held.len() == after.len() {
                        i
                    } else {
                        i - 1
                    };
                    assert(after[i] == before.held[a]);
                }
            }
        }
    }

    fn handle_tracking_id(&mut self, id: i32)
        requires
            old(self)@.fits(),
        ensures
            final(self)@ == followed(old(self)@, id),
            final(self)@.fits(),
    {
        let slot: i32 = match self.current_slot {
            None => {
                return;
            },
            Some(s) => s,
        };
        let ghost start = self@;
        let k: usize = self.place(slot);
        proof {
            place_is_first(start.held, slot, 0);
        }
        let now = if k < self.slots.len() && self.slots[k].slot == slot {
            Some(self.slots[k].contact)
        } else {
            None
        };
        assert(now == held(start.held, slot));
        if id == -1 {
            if let Some(c) = now {
                assert(contact_fits(start.held[k as int].contact, start.axes));
                let _gone = self.slots.remove(k);
                self.pending_releases.push(c);
                proof {
                    assert(self@.released =~= start.released.push(c));
                    assert(self@.held =~= without_held(start.held, slot));
                    assert forall|i: int| 0 <= i < self@.held.len() implies contact_fits(
                        (#[trigger] self@.held[i]).contact,
                        self@.axes,
                    ) && self@.axes.slots.low() <= self@.held[i].slot <= self@.axes.slots.high() by {
                        let a = if i < k {
                            i
                        } else {
                            i + 1
                        };
                        assert(self@.held[i] == start.held[a]);
                    }
                }
            }
            return;
        }
        if id < 0 {
            return;
        }
        if let Some(c) = now {
            if c.tracking_id == id as u32 {
                return;
            }
            assert(contact_fits(start.held[k as int].contact, start.axes));
            self.pending_releases.push(c);
            assert(self@.released =~= start.released.push(c));
        }
        self.put(slot, Contact::new(id as u32));
    }

    fn update_position(&mut self, x: Option<i32>, y: Option<i32>)
        requires
            old(self)@.fits(),
        ensures
            final(self)@ == moved(old(self)@, x, y),
            final(self)@.fits(),
    {
        let slot: i32 = match self.current_slot {
            None => {
                return;
            },
            Some(s) => s,
        };
        let k: usize = self.place(slot);
        if !(k < self.slots.len() && self.slots[k].slot == slot) {
            return;
        }
        let c = self.slots[k].contact;
        assert(contact_fits(self@.held[k as int].contact, self@.axes));
        let raw_x = if x.is_some() {
            x
        } else {
            c.raw_x
        };
        let raw_y = if y.is_some() {
            y
        } else {
            c.raw_y
        };
        let d = Contact { raw_x, raw_y, ..c };
        self.put(slot, d.refresh_point(self.axes, self.config));
    }

    fn commit_frame(&mut self) -> (out: Vec<InputEvent>)
        requires
            old(self)@.fits(),
        ensures
            (final(self)@, out@) == committed(old(self)@),
            final(self)@.fits(),
    {
        let ghost start = self@;
        let mut out: Vec<InputEvent> = Vec::new();
        let mut i: usize = 0;
        assert(out@ =~= Seq::empty());
        while i < self.pending_releases.len()
            invariant
                i <= self.pending_releases@.len(),
                self@ == start,
                start.fits(),
                out@ == released_events(
                    start.device,
                    start.axes,
                    start.config,
                    start.released,
                    i as nat,
                ),
            decreases self.pending_releases@.len() - i,
        {
            let given = self.pending_releases[i];
            assert(given == start.released[i as int]);
            let contact = given.refresh_point(self.axes, self.config);
            append_finished_contact(&mut out, self.device_id, contact, self.config);
            i = i + 1;
        }
        self.pending_releases = Vec::new();
        assert(self@.released =~= Seq::empty());
        let ghost first = out@;
        let mut k: usize = 0;
        assert(out@ =~= first + Seq::<InputEvent>::empty());
        while k < self.slots.len()
            invariant
                k <= self.slots@.len(),
                self.slots@.len() == start.held.len(),
                start.fits(),
                self@ == (TouchView {
                    held: self@.held,
                    released: Seq::empty(),
                    ..start
                }),
                forall|j: int|
                    0 <= j < k ==> #[trigger] self@.held[j] == (SlotContact {
                        slot: start.held[j].slot,
                        contact: reported(start.held[j].contact, start.axes, start.config),
                    }) && contact_fits(self@.held[j].contact, start.axes),
                forall|j: int|
                    k <= j < self@.held.len() ==> #[trigger] self@.held[j] == start.held[j],
                out@ == first + touch_events(
                    start.device,
                    start.axes,
                    start.config,
                    start.held,
                    k as nat,
                ),
            decreases self.slots@.len() - k,
        {
            let held = self.slots[k];
            assert(held == self@.held[k as int]);
            assert(held == start.held[k as int]);
            let mut contact = held.contact.refresh_point(self.axes, self.config);
            let ghost before = out@;
            if let Some(at) = contact.last {
                if !contact.down_emitted {
                    out.push(
                        InputEvent::TouchDown {
                            contact: TouchContactId {
                                device: self.device_id,
                                tracking_id: contact.tracking_id,
                            },
                            at,
                        },
                    );
                    contact.down_emitted = true;
                }
            }
            self.slots.set(k, SlotContact { slot: held.slot, contact });
            assert(out@ =~= first + touch_events(
                start.device,
                start.axes,
                start.config,
                start.held,
                (k + 1) as nat,
            ));
            k = k + 1;
        }
        assert(self@.held =~= all_reported(start.held, start.axes, start.config));
        proof {
            assert forall|a: int, b: int| 0 <= a < b < self@.held.len() implies self@.held[a].slot
                < self@.held[b].slot by {
                assert(start.held[a].slot < start.held[b].slot);
            }
            assert forall|a: int| 0 <= a < self@.held.len() implies self@.axes.slots.low() <= (
            #[trigger] self@.held[a]).slot <= self@.axes.slots.high() by {
                assert(start.held[a].slot == self@.held[a].slot);
            }
        }
        out
    }
}

/// After a dropped frame nothing is held, and no event but the report that
/// ends the gap has any effect or gives any event.
pub proof fn gap_is_silent(v: TouchView, event: RawTouchEvent)
    ensures
        handled(v, RawTouchEvent::SyncDropped).0.held.len() == 0,
        handled(v, RawTouchEvent::SyncDropped).0.desynchronized,
        v.desynchronized && event != RawTouchEvent::SyncDropped ==> {
            &&& handled(v, event).1.len() == 0
            &&& handled(v, event).0.held == v.held
            &&& handled(v, event).0.desynchronized == (event != RawTouchEvent::SyncReport)
        },
{
}

/// Only a report or a dropped frame gives events.
pub proof fn output_waits_for_the_report(v: TouchView, event: RawTouchEvent)
    requires
        event != RawTouchEvent::SyncReport,
        event != RawTouchEvent::SyncDropped,
    ensures
        handled(v, event).1.len() == 0,
{
}

/// A slot out of range is not followed: what follows changes no contact.
pub proof fn slot_out_of_range_is_ignored(v: TouchView, slot: i32, id: i32, x: i32)
    requires
        !v.desynchronized,
        !(v.axes.slots.low() <= slot <= v.axes.slots.high()),
    ensures
        ({
            let a = handled(v, RawTouchEvent::Slot(slot)).0;
            &&& handled(a, RawTouchEvent::TrackingId(id)).0.held == v.held
            &&& handled(a, RawTouchEvent::PositionX(x)).0.held == v.held
            &&& handled(a, RawTouchEvent::PositionY(x)).0.held == v.held
        }),
{
}

/// The device that an event speaks of.
pub open spec fn event_device(e: InputEvent) -> Option<InputDeviceId> {
    match e {
        InputEvent::TouchDown { contact, at } => Some(contact.device),
        InputEvent::TouchUp { contact, at } => Some(contact.device),
        InputEvent::Gesture { contact, from, to } => Some(contact.device),
        InputEvent::Resync { device } => device,
    }
}

/// Every event of a machine is about its own device: tracking numbers of two
/// devices never meet.
pub proof fn events_name_their_device(v: TouchView, event: RawTouchEvent, i: int)
    requires
        0 <= i < handled(v, event).1.len(),
    ensures
        event_device(handled(v, event).1[i]) == Some(v.device),
{
    if event == RawTouchEvent::SyncReport && !v.desynchronized {
        let r = released_events(v.device, v.axes, v.config, v.released, v.released.len());
        let t = touch_events(v.device, v.axes, v.config, v.held, v.held.len());
        if i < r.len() {
            released_name_their_device(v.device, v.axes, v.config, v.released, v.released.len(), i);
        } else {
            touches_name_their_device(
                v.device,
                v.axes,
                v.config,
                v.held,
                v.held.len(),
                i - r.len(),
            );
        }
    }
}

proof fn released_name_their_device(
    device: InputDeviceId,
    axes: TouchAxes,
    config: GestureConfig,
    all: Seq<Contact>,
    n: nat,
    i: int,
)
    requires
        0 <= i < released_events(device, axes, config, all, n).len(),
    ensures
        event_device(released_events(device, axes, config, all, n)[i]) == Some(device),
    decreases n,
{
    if n > 0 {
        let before = released_events(device, axes, config, all, (n - 1) as nat);
        if i < before.len() {
            released_name_their_device(device, axes, config, all, (n - 1) as nat, i);
        }
    }
}

proof fn touches_name_their_device(
    device: InputDeviceId,
    axes: TouchAxes,
    config: GestureConfig,
    all: Seq<SlotContact>,
    n: nat,
    i: int,
)
    requires
        0 <= i < touch_events(device, axes, config, all, n).len(),
    ensures
        event_device(touch_events(device, axes, config, all, n)[i]) == Some(device),
    decreases n,
{
    if n > 0 {
        let before = touch_events(device, axes, config, all, (n - 1) as nat);
        if i < before.len() {
            touches_name_their_device(device, axes, config, all, (n - 1) as nat, i);
        }
    }
}

/// A contact that travelled far enough made a gesture, even if it came back:
/// the farthest point never gets nearer.
pub proof fn travel_is_not_forgotten(c: Contact, axes: TouchAxes, config: GestureConfig)
    requires
        c.start is Some,
        c.farthest is Some,
    ensures
        ({
            let d = refreshed(c, axes, config);
            &&& d.start == c.start
            &&& d.farthest is Some
            &&& reach(d.start->0, d.farthest->0) >= reach(c.start->0, c.farthest->0)
            &&& c.edged ==> d.edged
            &&& gesture(c, config) ==> gesture(d, config)
        }),
{
    let d = refreshed(c, axes, config);
    let s = c.start->0;
    let w = WHOLE as int * WHOLE as int;
    assert(w * reach(s, d.farthest->0) >= w * reach(s, c.farthest->0)) by (nonlinear_arith)
        requires
            reach(s, d.farthest->0) >= reach(s, c.farthest->0),
            w >= 0,
    ;
}

} // verus!
