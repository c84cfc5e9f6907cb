//! Shapes and the pairwise overlap tests between them.

use vstd::prelude::*;
use crate::units::REACH;

verus! {

/// An axis-aligned rectangle: top-left corner and size.
#[derive(Clone, Copy, Debug, PartialEq, Eq, Structural)]
pub struct Rect {
    pub x: i64,
    pub y: i64,
    pub w: i64,
    pub h: i64,
}

/// A circle: centre and radius.
#[derive(Clone, Copy, Debug, PartialEq, Eq, Structural)]
pub struct Circle {
    pub x: i64,
    pub y: i64,
    pub r: i64,
}

/// The closed set of shapes that take part in collisions.
#[derive(Clone, Copy, Debug, PartialEq, Eq, Structural)]
pub enum Shape {
    Circle(Circle),
    Rect(Rect),
}

/// How far `v` lies outside the interval `[lo, hi]`; 0 inside it.
pub open spec fn gap(v: int, lo: int, hi: int) -> int {
    if v < lo {
        lo - v
    } else if v > hi {
        v - hi
    } else {
        0
    }
}

impl Rect {
    /// The rectangle's numbers are within reach and its size is not negative.
    pub open spec fn wf(&self) -> bool {
        &&& -REACH <= self.x <= REACH
        &&& -REACH <= self.y <= REACH
        &&& 0 <= self.w <= REACH
        &&& 0 <= self.h <= REACH
    }

    /// The point `(px, py)` lies in the rectangle, edges included.
    pub open spec fn holds(&self, px: int, py: int) -> bool {
        &&& self.x <= px <= self.x + self.w
        &&& self.y <= py <= self.y + self.h
    }

    /// Two rectangles overlap when they share a point; touching edges count.
    pub open spec fn meets(&self, other: &Rect) -> bool {
        &&& self.x <= other.x + other.w
        &&& self.x + self.w >= other.x
        &&& self.y <= other.y + other.h
        &&& self.y + self.h >= other.y
    }

    pub fn new(x: i64, y: i64, w: i64, h: i64) -> (r: Rect)
        ensures
            r == (Rect { x, y, w, h }),
    {
        Rect { x, y, w, h }
    }

    /// Rectangle against rectangle.
    pub fn overlaps(&self, other: &Rect) -> (hit: bool)
        requires
            self.wf(),
            other.wf(),
        ensures
            hit == self.meets(other),
    {
        self.x <= other.x + other.w && self.x + self.w >= other.x && self.y <= other.y + other.h
            && self.y + self.h >= other.y
    }
}

impl Circle {
    /// The circle's numbers are within reach and its radius is not negative.
    pub open spec fn wf(&self) -> bool {
        &&& -REACH <= self.x <= REACH
        &&& -REACH <= self.y <= REACH
        &&& 0 <= self.r <= REACH
    }

    /// The point `(px, py)` lies in the disc, rim included.
    pub open spec fn holds(&self, px: int, py: int) -> bool {
        (px - self.x) * (px - self.x) + (py - self.y) * (py - self.y) <= self.r * self.r
    }

    /// A circle overlaps a rectangle when the point of the rectangle nearest
    /// to the centre is no farther from it than the radius.
    pub open spec fn meets_rect(&self, rect: &Rect) -> bool {
        let dx = gap(self.x as int, rect.x as int, rect.x + rect.w);
        let dy = gap(self.y as int, rect.y as int, rect.y + rect.h);
        dx * dx + dy * dy <= self.r * self.r
    }

    pub fn new(x: i64, y: i64, r: i64) -> (c: Circle)
        ensures
            c == (Circle { x, y, r }),
    {
        Circle { x, y, r }
    }

    /// Circle against rectangle.
    pub fn overlaps_rect(&self, rect: &Rect) -> (hit: bool)
        requires
            self.wf(),
            rect.wf(),
        ensures
            hit == self.meets_rect(rect),
    {
        let dx: i64 = axis_gap(self.x, rect.x, rect.w);
        let dy: i64 = axis_gap(self.y, rect.y, rect.h);
        let dx2: i128 = square(dx);
        let dy2: i128 = square(dy);
        let r2: i128 = square(self.r);
        dx2 + dy2 <= r2
    }
}

/// The square around a circle.
pub open spec fn bounding(c: &Circle) -> Rect {
    Rect { x: (c.x - c.r) as i64, y: (c.y - c.r) as i64, w: (2 * c.r) as i64, h: (2 * c.r) as i64 }
}

/// Two rectangles overlap exactly if they share a point.
pub proof fn lemma_rects_meet_at_a_point(a: Rect, b: Rect)
    requires
        a.w >= 0,
        a.h >= 0,
        b.w >= 0,
        b.h >= 0,
    ensures
        a.meets(&b) <==> exists|px: int, py: int| #[trigger] a.holds(px, py) && b.holds(px, py),
{
    if a.meets(&b) {
        let px = if a.x < b.x {
            b.x as int
        } else {
            a.x as int
        };
        let py = if a.y < b.y {
            b.y as int
        } else {
            a.y as int
        };
        assert(a.holds(px, py) && b.holds(px, py));
    }
}

/// On one axis, no point of an interval is nearer to `v` than the gap, and
/// the point of the interval nearest to `v` is exactly that far.
proof fn lemma_gap_squared(v: int, lo: int, hi: int, p: int)
    requires
        lo <= p <= hi,
    ensures
        gap(v, lo, hi) * gap(v, lo, hi) <= (p - v) * (p - v),
        p == (if v < lo {
            lo
        } else if v > hi {
            hi
        } else {
            v
        }) ==> gap(v, lo, hi) * gap(v, lo, hi) == (p - v) * (p - v),
{
    let d = gap(v, lo, hi);
    let a = p - v;
    assert(d * d <= a * a) by (nonlinear_arith)
        requires
            (0 <= d <= a) || (0 <= d <= -a),
    ;
    if a == d || a == -d {
        assert(d * d == a * a) by (nonlinear_arith)
            requires
                a == d || a == -d,
        ;
    }
}

/// A circle and a rectangle overlap exactly if they share a point.
pub proof fn lemma_circle_meets_rect_at_a_point(c: Circle, r: Rect)
    requires
        r.w >= 0,
        r.h >= 0,
    ensures
        c.meets_rect(&r) <==> exists|px: int, py: int| #[trigger]
            r.holds(px, py) && c.holds(px, py),
{
    let dx = gap(c.x as int, r.x as int, r.x + r.w);
    let dy = gap(c.y as int, r.y as int, r.y + r.h);
    if c.meets_rect(&r) {
        let px = if c.x < r.x {
            r.x as int
        } else if c.x > r.x + r.w {
            r.x + r.w
        } else {
            c.x as int
        };
        let py = if c.y < r.y {
            r.y as int
        } else if c.y > r.y + r.h {
            r.y + r.h
        } else {
            c.y as int
        };
        lemma_gap_squared(c.x as int, r.x as int, r.x + r.w, px);
        lemma_gap_squared(c.y as int, r.y as int, r.y + r.h, py);
        assert(r.holds(px, py) && c.holds(px, py));
    }
    if exists|px: int, py: int| #[trigger] r.holds(px, py) && c.holds(px, py) {
        let (px, py) = choose|px: int, py: int| #[trigger] r.holds(px, py) && c.holds(px, py);
        lemma_gap_squared(c.x as int, r.x as int, r.x + r.w, px);
        lemma_gap_squared(c.y as int, r.y as int, r.y + r.h, py);
    }
}

/// The circle test is the stronger one: whatever a circle overlaps, the
/// square around it overlaps too.
pub proof fn lemma_circle_within_its_square(c: Circle, r: Rect)
    requires
        c.wf(),
        r.wf(),
        c.meets_rect(&r),
    ensures
        bounding(&c).meets(&r),
{
    let dx = gap(c.x as int, r.x as int, r.x + r.w);
    let dy = gap(c.y as int, r.y as int, r.y + r.h);
    let rr = c.r as int;
    assert(dx <= rr && dy <= rr) by (nonlinear_arith)
        requires
            dx * dx + dy * dy <= rr * rr,
            dx >= 0,
            dy >= 0,
            rr >= 0,
    ;
}

/// Computes [`gap`] of `v` from the interval that starts at `lo` and is
/// `len` long.
fn axis_gap(v: i64, lo: i64, len: i64) -> (d: i64)
    requires
        -REACH <= v <= REACH,
        -REACH <= lo <= REACH,
        0 <= len <= REACH,
    ensures
        d == gap(v as int, lo as int, lo + len),
        0 <= d <= 2 * REACH,
{
    if v < lo {
        lo - v
    } else if v > lo + len {
        v - (lo + len)
    } else {
        0
    }
}

/// The square of a number within twice the reach.
fn square(v: i64) -> (s: i128)
    requires
        0 <= v <= 2 * REACH,
    ensures
        s == v * v,
        0 <= s <= 4 * REACH * REACH,
{
    assert(0 <= v * v <= 4 * REACH * REACH) by (nonlinear_arith)
        requires
            0 <= v <= 2 * REACH,
    ;
    let wide: i128 = v as i128;
    wide * wide
}

/// Overlap of any two shapes, chosen by their kinds. Two circles overlap
/// when their centres are no farther apart than the sum of the radii.
pub open spec fn shapes_meet(a: &Shape, b: &Shape) -> bool {
    match (*a, *b) {
        (Shape::Rect(p), Shape::Rect(q)) => p.meets(&q),
        (Shape::Circle(c), Shape::Rect(q)) => c.meets_rect(&q),
        (Shape::Rect(p), Shape::Circle(c)) => c.meets_rect(&p),
        (Shape::Circle(c), Shape::Circle(d)) => (c.x - d.x) * (c.x - d.x) + (c.y - d.y) * (c.y
            - d.y) <= (c.r + d.r) * (c.r + d.r),
    }
}

impl Shape {
    pub open spec fn wf(&self) -> bool {
        match *self {
            Shape::Circle(c) => c.wf(),
            Shape::Rect(r) => r.wf(),
        }
    }
}

/// Tests two shapes for overlap.
pub fn shapes_overlap(a: &Shape, b: &Shape) -> (hit: bool)
    requires
        a.wf(),
        b.wf(),
    ensures
        hit == shapes_meet(a, b),
{
    match (a, b) {
        (Shape::Rect(p), Shape::Rect(q)) => p.overlaps(q),
        (Shape::Circle(c), Shape::Rect(q)) => c.overlaps_rect(q),
        (Shape::Rect(p), Shape::Circle(c)) => c.overlaps_rect(p),
        (Shape::Circle(c), Shape::Circle(d)) => {
            let dx: i64 = if c.x < d.x { d.x - c.x } else { c.x - d.x };
            let dy: i64 = if c.y < d.y { d.y - c.y } else { c.y - d.y };
            let dx2: i128 = square(dx);
            let dy2: i128 = square(dy);
            let rr: i128 = square(c.r + d.r);
            assert(dx * dx == (c.x - d.x) * (c.x - d.x)) by (nonlinear_arith)
                requires
                    dx == c.x - d.x || dx == d.x - c.x,
            ;
            assert(dy * dy == (c.y - d.y) * (c.y - d.y)) by (nonlinear_arith)
                requires
                    dy == c.y - d.y || dy == d.y - c.y,
            ;
            dx2 + dy2 <= rr
        },
    }
}

} // verus!
