//! Axis-aligned bounding boxes stored as a center and half-extents.

use crate::base::point::Point;
use crate::base::size::Size;
use crate::base::vector::Vector;
use crate::collision::hit::Hit;
use crate::shape::polygon::{edge, edges_nondegenerate, Polygon};
use crate::num::{
    abs64, iabs, isqrt, lemma_mul_bounds, lemma_sq_nonneg, lemma_sqrt_below, max_i, min_i, mul64,
    sq, sqrt_floor,
};
use vstd::prelude::*;

verus! {

/// An axis-aligned box: a center and nonnegative half-extents. A box of
/// zero extent is legal but has no interior.
#[derive(Clone, Copy, Debug, PartialEq, Eq, Structural)]
pub struct BoundingBox {
    pub center: Point,
    pub half: Size,
}

/// The distance between two boxes: zero when they overlap on both axes, the
/// one-dimensional gap when they overlap on exactly one, and otherwise the
/// rounded-down Euclidean distance between their nearest corners.
pub open spec fn bb_distance_spec(a: BoundingBox, b: BoundingBox) -> int {
    if a.overlaps_x_spec(b) {
        if a.is_above_spec(b) {
            a.y1s() - b.y2s()
        } else if a.is_below_spec(b) {
            b.y1s() - a.y2s()
        } else {
            0
        }
    } else if a.overlaps_y_spec(b) {
        if a.is_left_spec(b) {
            b.x1s() - a.x2s()
        } else if a.is_right_spec(b) {
            a.x1s() - b.x2s()
        } else {
            0
        }
    } else {
        let gx = max_i(a.x1s(), b.x1s()) - min_i(a.x2s(), b.x2s());
        let gy = max_i(a.y1s(), b.y1s()) - min_i(a.y2s(), b.y2s());
        sqrt_floor((sq(gx) + sq(gy)) as nat) as int
    }
}

/// The four corners of a box, counterclockwise from the bottom-left, in
/// the same winding as a rectangle's vertices at zero orientation.
pub open spec fn box_corners(b: BoundingBox) -> Seq<Point> {
    seq![
        Point { x: (b.center.x - b.half.w) as i64, y: (b.center.y - b.half.h) as i64 },
        Point { x: (b.center.x + b.half.w) as i64, y: (b.center.y - b.half.h) as i64 },
        Point { x: (b.center.x + b.half.w) as i64, y: (b.center.y + b.half.h) as i64 },
        Point { x: (b.center.x - b.half.w) as i64, y: (b.center.y + b.half.h) as i64 },
    ]
}

/// A box with extent on both axes has no degenerate corner edge.
pub proof fn lemma_box_corners_nondegenerate(b: BoundingBox)
    requires
        b.wf(),
        b.half.w >= 1,
        b.half.h >= 1,
    ensures
        edges_nondegenerate(box_corners(b)),
{
    assert forall|i: int| 0 <= i < 4 implies (#[trigger] edge(box_corners(b), i)).origin != edge(
        box_corners(b),
        i,
    ).end by {
        assert(0 <= (i + 1) % 4 < 4);
    }
}

/// A point strictly inside a box penetrates it on both axes; the box
/// resolves it along the axis of smaller penetration, toward the nearer
/// face. The contact lies on that face; the normal and the translation
/// point from the box center toward the point's side.
pub open spec fn bb_hit_point_spec(b: BoundingBox, p: Point) -> Option<Hit> {
    let dx = p.x - b.center.x;
    let px = b.half.w - iabs(dx);
    let dy = p.y - b.center.y;
    let py = b.half.h - iabs(dy);
    if px <= 0 || py <= 0 {
        Option::None
    } else if px < py {
        if dx < 0 {
            Option::Some(
                Hit {
                    contact: Point { x: (b.center.x - b.half.w) as i64, y: p.y },
                    normal: Vector { dx: -1000i64, dy: 0 },
                    delta: Vector { dx: (-px) as i64, dy: 0 },
                    time: 0,
                },
            )
        } else {
            Option::Some(
                Hit {
                    contact: Point { x: (b.center.x + b.half.w) as i64, y: p.y },
                    normal: Vector { dx: 1000, dy: 0 },
                    delta: Vector { dx: px as i64, dy: 0 },
                    time: 0,
                },
            )
        }
    } else {
        if dy < 0 {
            Option::Some(
                Hit {
                    contact: Point { x: p.x, y: (b.center.y - b.half.h) as i64 },
                    normal: Vector { dx: 0, dy: -1000i64 },
                    delta: Vector { dx: 0, dy: (-py) as i64 },
                    time: 0,
                },
            )
        } else {
            Option::Some(
                Hit {
                    contact: Point { x: p.x, y: (b.center.y + b.half.h) as i64 },
                    normal: Vector { dx: 0, dy: 1000 },
                    delta: Vector { dx: 0, dy: py as i64 },
                    time: 0,
                },
            )
        }
    }
}

impl BoundingBox {
    /// The half-extents are nonnegative and all four edges stay within the
    /// coordinate range.
    pub open spec fn wf(&self) -> bool {
        &&& self.half.wf()
        &&& crate::num::in_range(self.center.x - self.half.w)
        &&& crate::num::in_range(self.center.x + self.half.w)
        &&& crate::num::in_range(self.center.y - self.half.h)
        &&& crate::num::in_range(self.center.y + self.half.h)
    }

    /// Left edge.
    pub open spec fn x1s(&self) -> int {
        self.center.x - self.half.w
    }

    /// Right edge.
    pub open spec fn x2s(&self) -> int {
        self.center.x + self.half.w
    }

    /// Bottom edge (smaller y).
    pub open spec fn y1s(&self) -> int {
        self.center.y - self.half.h
    }

    /// Top edge (larger y).
    pub open spec fn y2s(&self) -> int {
        self.center.y + self.half.h
    }

    /// The x extents of the two boxes intersect (touching counts).
    pub open spec fn overlaps_x_spec(&self, other: BoundingBox) -> bool {
        other.x2s() > self.x1s() && other.x1s() < self.x2s()
    }

    /// The y extents of the two boxes intersect (touching counts).
    pub open spec fn overlaps_y_spec(&self, other: BoundingBox) -> bool {
        other.y2s() > self.y1s() && other.y1s() < self.y2s()
    }

    /// This box lies strictly above the other.
    pub open spec fn is_above_spec(&self, other: BoundingBox) -> bool {
        self.y1s() > other.y2s()
    }

    /// This box lies strictly below the other.
    pub open spec fn is_below_spec(&self, other: BoundingBox) -> bool {
        self.y2s() < other.y1s()
    }

    /// This box lies strictly to the left of the other.
    pub open spec fn is_left_spec(&self, other: BoundingBox) -> bool {
        self.x2s() < other.x1s()
    }

    /// This box lies strictly to the right of the other.
    pub open spec fn is_right_spec(&self, other: BoundingBox) -> bool {
        self.x1s() > other.x2s()
    }

    /// The box with the given center and half-extents.
    pub fn new(center: Point, half: Size) -> (r: BoundingBox)
        ensures
            r == (BoundingBox { center, half }),
    {
        BoundingBox { center, half }
    }

    /// The box spanning the given edges; extents of odd length lose half a
    /// count to rounding.
    pub fn from_edges(x1: i64, y1: i64, x2: i64, y2: i64) -> (r: BoundingBox)
        requires
            x1 < x2,
            y1 < y2,
            crate::num::in_range(x1 as int),
            crate::num::in_range(x2 as int),
            crate::num::in_range(y1 as int),
            crate::num::in_range(y2 as int),
        ensures
            r.half.w == (x2 - x1) / 2,
            r.half.h == (y2 - y1) / 2,
            r.center.x == x1 + (x2 - x1) / 2,
            r.center.y == y1 + (y2 - y1) / 2,
            r.wf(),
    {
        let w = (x2 - x1) / 2;
        let h = (y2 - y1) / 2;
        proof {
            crate::num::lemma_div_magnitude(x2 - x1, 2);
            crate::num::lemma_div_magnitude(y2 - y1, 2);
            vstd::arithmetic::div_mod::lemma_fundamental_div_mod(x2 - x1, 2);
            vstd::arithmetic::div_mod::lemma_fundamental_div_mod(y2 - y1, 2);
            vstd::arithmetic::div_mod::lemma_mod_bound(x2 - x1, 2);
            vstd::arithmetic::div_mod::lemma_mod_bound(y2 - y1, 2);
        }
        BoundingBox {
            center: Point { x: x1 + w, y: y1 + h },
            half: Size { w, h },
        }
    }

    /// Left edge.
    pub fn x1(&self) -> (r: i64)
        requires
            self.wf(),
        ensures
            r == self.x1s(),
    {
        self.center.x - self.half.w
    }

    /// Right edge.
    pub fn x2(&self) -> (r: i64)
        requires
            self.wf(),
        ensures
            r == self.x2s(),
    {
        self.center.x + self.half.w
    }

    /// Bottom edge (smaller y).
    pub fn y1(&self) -> (r: i64)
        requires
            self.wf(),
        ensures
            r == self.y1s(),
    {
        self.center.y - self.half.h
    }

    /// Top edge (larger y).
    pub fn y2(&self) -> (r: i64)
        requires
            self.wf(),
        ensures
            r == self.y2s(),
    {
        self.center.y + self.half.h
    }

    /// The smaller left edge of the two boxes.
    pub fn min_x1(&self, other: BoundingBox) -> (r: i64)
        requires
            self.wf(),
            other.wf(),
        ensures
            r == min_i(self.x1s(), other.x1s()),
    {
        let a = self.x1();
        let b = other.x1();
        if a <= b {
            a
        } else {
            b
        }
    }

    /// The smaller right edge of the two boxes.
    pub fn min_x2(&self, other: BoundingBox) -> (r: i64)
        requires
            self.wf(),
            other.wf(),
        ensures
            r == min_i(self.x2s(), other.x2s()),
    {
        let a = self.x2();
        let b = other.x2();
        if a <= b {
            a
        } else {
            b
        }
    }

    /// The larger left edge of the two boxes.
    pub fn max_x1(&self, other: BoundingBox) -> (r: i64)
        requires
            self.wf(),
            other.wf(),
        ensures
            r == max_i(self.x1s(), other.x1s()),
    {
        let a = self.x1();
        let b = other.x1();
        if a >= b {
            a
        } else {
            b
        }
    }

    /// The larger right edge of the two boxes.
    pub fn max_x2(&self, other: BoundingBox) -> (r: i64)
        requires
            self.wf(),
            other.wf(),
        ensures
            r == max_i(self.x2s(), other.x2s()),
    {
        let a = self.x2();
        let b = other.x2();
        if a >= b {
            a
        } else {
            b
        }
    }

    /// The smaller bottom edge of the two boxes.
    pub fn min_y1(&self, other: BoundingBox) -> (r: i64)
        requires
            self.wf(),
            other.wf(),
        ensures
            r == min_i(self.y1s(), other.y1s()),
    {
        let a = self.y1();
        let b = other.y1();
        if a <= b {
            a
        } else {
            b
        }
    }

    /// The smaller top edge of the two boxes.
    pub fn min_y2(&self, other: BoundingBox) -> (r: i64)
        requires
            self.wf(),
            other.wf(),
        ensures
            r == min_i(self.y2s(), other.y2s()),
    {
        let a = self.y2();
        let b = other.y2();
        if a <= b {
            a
        } else {
            b
        }
    }

    /// The larger bottom edge of the two boxes.
    pub fn max_y1(&self, other: BoundingBox) -> (r: i64)
        requires
            self.wf(),
            other.wf(),
        ensures
            r == max_i(self.y1s(), other.y1s()),
    {
        let a = self.y1();
        let b = other.y1();
        if a >= b {
            a
        } else {
            b
        }
    }

    /// The larger top edge of the two boxes.
    pub fn max_y2(&self, other: BoundingBox) -> (r: i64)
        requires
            self.wf(),
            other.wf(),
        ensures
            r == max_i(self.y2s(), other.y2s()),
    {
        let a = self.y2();
        let b = other.y2();
        if a >= b {
            a
        } else {
            b
        }
    }

    /// Whether a point lies strictly inside the box.
    pub fn is_inside(&self, point: Point) -> (r: bool)
        requires
            self.wf(),
            point.wf(),
        ensures
            r == (self.x1s() < point.x < self.x2s() && self.y1s() < point.y < self.y2s()),
    {
        point.x > self.x1() && point.x < self.x2() && point.y > self.y1() && point.y < self.y2()
    }

    /// Whether the x extents of the two boxes intersect.
    pub fn overlaps_x(&self, other: BoundingBox) -> (r: bool)
        requires
            self.wf(),
            other.wf(),
        ensures
            r == self.overlaps_x_spec(other),
    {
        other.x2() > self.x1() && other.x1() < self.x2()
    }

    /// Whether the y extents of the two boxes intersect.
    pub fn overlaps_y(&self, other: BoundingBox) -> (r: bool)
        requires
            self.wf(),
            other.wf(),
        ensures
            r == self.overlaps_y_spec(other),
    {
        other.y2() > self.y1() && other.y1() < self.y2()
    }

    /// Whether this box lies strictly above the other.
    pub fn is_above(&self, other: BoundingBox) -> (r: bool)
        requires
            self.wf(),
            other.wf(),
        ensures
            r == self.is_above_spec(other),
    {
        self.y1() > other.y2()
    }

    /// Whether this box lies strictly below the other.
    pub fn is_below(&self, other: BoundingBox) -> (r: bool)
        requires
            self.wf(),
            other.wf(),
        ensures
            r == self.is_below_spec(other),
    {
        self.y2() < other.y1()
    }

    /// Whether this box lies strictly to the left of the other.
    pub fn is_left(&self, other: BoundingBox) -> (r: bool)
        requires
            self.wf(),
            other.wf(),
        ensures
            r == self.is_left_spec(other),
    {
        self.x2() < other.x1()
    }

    /// Whether this box lies strictly to the right of the other.
    pub fn is_right(&self, other: BoundingBox) -> (r: bool)
        requires
            self.wf(),
            other.wf(),
        ensures
            r == self.is_right_spec(other),
    {
        self.x1() > other.x2()
    }

    /// The distance between two boxes: zero when overlapping, the axis gap
    /// when separated on one axis, the corner distance otherwise.
    pub fn distance(&self, other: BoundingBox) -> (r: i64)
        requires
            self.wf(),
            other.wf(),
        ensures
            r == bb_distance_spec(*self, other),
            r >= 0,
    {
        if self.overlaps_x(other) {
            if self.is_above(other) {
                self.y1() - other.y2()
            } else if self.is_below(other) {
                other.y1() - self.y2()
            } else {
                0
            }
        } else if self.overlaps_y(other) {
            if self.is_left(other) {
                other.x1() - self.x2()
            } else if self.is_right(other) {
                self.x1() - other.x2()
            } else {
                0
            }
        } else {
            let gx = self.max_x1(other) - self.min_x2(other);
            let gy = self.max_y1(other) - self.min_y2(other);
            proof {
                lemma_sq_nonneg(gx as int);
                lemma_sq_nonneg(gy as int);
                lemma_mul_bounds(gx as int, 1073741824, gx as int, 1073741824);
                lemma_mul_bounds(gy as int, 1073741824, gy as int, 1073741824);
            }
            let d2 = mul64(gx, gx) + mul64(gy, gy);
            let r = isqrt(d2 as i128);
            proof {
                lemma_sqrt_below(d2 as int, r as int, 1610612736);
            }
            r as i64
        }
    }

    /// A point strictly inside the box is pushed out through the nearer
    /// face; the contact lies on that face.
    #[verifier::rlimit(60)]
    pub fn hit_point(&self, point: Point) -> (r: Option<Hit>)
        requires
            self.wf(),
            point.wf(),
        ensures
            r == bb_hit_point_spec(*self, point),
    {
        let dx = point.x - self.center.x;
        let px = self.half.w - abs64(dx);
        if px <= 0 {
            return None;
        }
        let dy = point.y - self.center.y;
        let py = self.half.h - abs64(dy);
        if py <= 0 {
            return None;
        }
        if px < py {
            let (face, unit, push) = if dx < 0 {
                (self.center.x - self.half.w, -1000, -px)
            } else {
                (self.center.x + self.half.w, 1000, px)
            };
            Some(
                Hit {
                    contact: Point { x: face, y: point.y },
                    normal: Vector { dx: unit, dy: 0 },
                    delta: Vector { dx: push, dy: 0 },
                    time: 0,
                },
            )
        } else {
            let (face, unit, push) = if dy < 0 {
                (self.center.y - self.half.h, -1000, -py)
            } else {
                (self.center.y + self.half.h, 1000, py)
            };
            Some(
                Hit {
                    contact: Point { x: point.x, y: face },
                    normal: Vector { dx: 0, dy: unit },
                    delta: Vector { dx: 0, dy: push },
                    time: 0,
                },
            )
        }
    }
}

impl BoundingBox {
    /// Every box, including a degenerate one, is at distance zero from
    /// itself.
    pub proof fn lemma_self_distance(self)
        requires
            self.wf(),
        ensures
            bb_distance_spec(self, self) == 0,
    {
        if self.half.w == 0 && self.half.h == 0 {
            assert(sq(0) == 0);
        }
    }

    /// The polygon over the box's corners.
    pub fn polygon(&self) -> (p: Polygon)
        requires
            self.wf(),
        ensures
            p.vertices@ == box_corners(*self),
            p.wf(),
            p.vertices@.len() == 4,
    {
        let mut vertices: Vec<Point> = Vec::new();
        vertices.push(Point { x: self.center.x - self.half.w, y: self.center.y - self.half.h });
        vertices.push(Point { x: self.center.x + self.half.w, y: self.center.y - self.half.h });
        vertices.push(Point { x: self.center.x + self.half.w, y: self.center.y + self.half.h });
        vertices.push(Point { x: self.center.x - self.half.w, y: self.center.y + self.half.h });
        proof {
            assert(vertices@ =~= box_corners(*self));
        }
        Polygon { vertices }
    }
}

} // verus!
