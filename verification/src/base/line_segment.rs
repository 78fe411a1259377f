//! Finite line segments and their exact projection and intersection
//! queries.
//!
//! Decisions (is a point on the segment, do two segments cross) are made on
//! exact integer cross and dot products; only returned coordinates are
//! rounded, each by a single floor division.

use crate::base::point::Point;
use crate::base::vector::Vector;
use crate::shape::circle::Circle;
use crate::shape::polygon::{crossings_list, edge, lemma_crossings_list_grows, poly_wf, Polygon};
use crate::num::{
    floor_div, isqrt, lemma_div_bounded, lemma_mul_bounds, lemma_sq_pos, lemma_sqrt_below, mul64,
    wide_mul, wide_range,
};
use vstd::prelude::*;

verus! {

/// A finite segment from `origin` to `end`; the order fixes its direction.
#[derive(Clone, Copy, Debug, PartialEq, Eq, Structural)]
pub struct LineSegment {
    pub origin: Point,
    pub end: Point,
}

/// Twice the signed area of the triangle `(a, b, p)`: zero exactly when `p`
/// lies on the infinite line through `a` and `b`.
pub open spec fn seg_cross(a: Point, b: Point, p: Point) -> int {
    (b.x - a.x) * (p.y - a.y) - (b.y - a.y) * (p.x - a.x)
}

/// `m` lies between `a` and `b`, whichever their order.
pub open spec fn between(a: int, m: int, b: int) -> bool {
    (a <= m <= b) || (b <= m <= a)
}

/// `p` lies on the closed segment: collinear with it and within its extent.
pub open spec fn on_segment_spec(seg: LineSegment, p: Point) -> bool {
    &&& seg_cross(seg.origin, seg.end, p) == 0
    &&& between(seg.origin.x as int, p.x as int, seg.end.x as int)
    &&& between(seg.origin.y as int, p.y as int, seg.end.y as int)
}

/// The point of the closed segment nearest to `p`: the projection of `p`
/// onto the segment's line, clamped to the segment, coordinates rounded
/// down.
pub open spec fn seg_closest(seg: LineSegment, p: Point) -> Point {
    let abx = seg.end.x - seg.origin.x;
    let aby = seg.end.y - seg.origin.y;
    let d = abx * abx + aby * aby;
    let k0 = abx * (p.x - seg.origin.x) + aby * (p.y - seg.origin.y);
    let k = if k0 < 0 {
        0
    } else if k0 > d {
        d
    } else {
        k0
    };
    Point {
        x: (seg.origin.x + abx * k / d) as i64,
        y: (seg.origin.y + aby * k / d) as i64,
    }
}

/// Where two segments cross, if they do: the solution of the two parametric
/// line equations, kept only when it falls within both segments' extents
/// (an exact integer decision), with its coordinates rounded down. Parallel
/// and collinear pairs yield nothing.
pub open spec fn seg_intersection_spec(a: LineSegment, b: LineSegment) -> Option<Point> {
    let rx = a.end.x - a.origin.x;
    let ry = a.end.y - a.origin.y;
    let sx = b.end.x - b.origin.x;
    let sy = b.end.y - b.origin.y;
    let den = rx * sy - ry * sx;
    let tn = (b.origin.x - a.origin.x) * sy - (b.origin.y - a.origin.y) * sx;
    let un = (b.origin.x - a.origin.x) * ry - (b.origin.y - a.origin.y) * rx;
    if den == 0 {
        Option::None
    } else {
        let dpos = if den < 0 {
            -den
        } else {
            den
        };
        let t = if den < 0 {
            -tn
        } else {
            tn
        };
        let u = if den < 0 {
            -un
        } else {
            un
        };
        if 0 <= t <= dpos && 0 <= u <= dpos {
            Option::Some(
                Point {
                    x: (a.origin.x + rx * t / dpos) as i64,
                    y: (a.origin.y + ry * t / dpos) as i64,
                },
            )
        } else {
            Option::None
        }
    }
}

impl LineSegment {
    /// Both endpoints lie within the wider range of derived coordinates, so
    /// a segment may reach beyond the shapes it was extended across.
    pub open spec fn wf(&self) -> bool {
        &&& wide_range(self.origin.x as int)
        &&& wide_range(self.origin.y as int)
        &&& wide_range(self.end.x as int)
        &&& wide_range(self.end.y as int)
    }

    /// The endpoints are distinct.
    pub open spec fn nondegenerate(&self) -> bool {
        self.origin != self.end
    }

    /// The segment between two points.
    pub fn new(origin: Point, end: Point) -> (r: LineSegment)
        ensures
            r == (LineSegment { origin, end }),
    {
        LineSegment { origin, end }
    }

    /// The segment from a point along a displacement.
    pub fn from_vector(point: Point, vector: Vector) -> (r: LineSegment)
        requires
            point.wf(),
            vector.wf(),
        ensures
            r.origin == point,
            r.end.x == point.x + vector.dx,
            r.end.y == point.y + vector.dy,
    {
        LineSegment { origin: point, end: point.add_vector(vector) }
    }

    /// The displacement from the end back to the origin.
    pub fn to_vector(&self) -> (r: Vector)
        requires
            self.wf(),
        ensures
            r.dx == self.origin.x - self.end.x,
            r.dy == self.origin.y - self.end.y,
            self.origin.wf() && self.end.wf() ==> r.wf(),
    {
        Vector { dx: self.origin.x - self.end.x, dy: self.origin.y - self.end.y }
    }

    /// The point of the segment nearest to `point`.
    pub fn closest_point(&self, point: Point) -> (r: Point)
        requires
            self.wf(),
            point.wide(),
            self.nondegenerate(),
        ensures
            r == seg_closest(*self, point),
            r.x == self.origin.x + (self.end.x - self.origin.x) * clamped_param(*self, point)
                / seg_len2(*self),
            r.y == self.origin.y + (self.end.y - self.origin.y) * clamped_param(*self, point)
                / seg_len2(*self),
            between(self.origin.x as int, r.x as int, self.end.x as int),
            between(self.origin.y as int, r.y as int, self.end.y as int),
    {
        let abx = self.end.x - self.origin.x;
        let aby = self.end.y - self.origin.y;
        proof {
            if abx != 0 {
                lemma_sq_pos(abx as int);
            } else {
                lemma_sq_pos(aby as int);
            }
            crate::num::lemma_sq_nonneg(abx as int);
            crate::num::lemma_sq_nonneg(aby as int);
            lemma_mul_bounds(abx as int, 536870912, abx as int, 536870912);
            lemma_mul_bounds(aby as int, 536870912, aby as int, 536870912);
            lemma_mul_bounds(abx as int, 536870912, point.x - self.origin.x, 536870912);
            lemma_mul_bounds(aby as int, 536870912, point.y - self.origin.y, 536870912);
        }
        let d = mul64(abx, abx) + mul64(aby, aby);
        let k0 = mul64(abx, point.x - self.origin.x) + mul64(aby, point.y - self.origin.y);
        let k = if k0 < 0 {
            0
        } else if k0 > d {
            d
        } else {
            k0
        };
        proof {
            lemma_mul_bounds(abx as int, 536870912, k as int, d as int);
            lemma_mul_bounds(aby as int, 536870912, k as int, d as int);
            lemma_div_bounded(abx * k, 536870912, d as int);
            lemma_div_bounded(aby * k, 536870912, d as int);
            crate::num::lemma_mul_div_clamped(abx as int, k as int, d as int);
            crate::num::lemma_mul_div_clamped(aby as int, k as int, d as int);
        }
        let qx = floor_div(
            wide_mul(abx as i128, k as i128, Ghost(536870912), Ghost(576460752303423488)),
            d as i128,
        );
        let qy = floor_div(
            wide_mul(aby as i128, k as i128, Ghost(536870912), Ghost(576460752303423488)),
            d as i128,
        );
        Point { x: self.origin.x + qx as i64, y: self.origin.y + qy as i64 }
    }

    /// Whether `point` lies on the closed segment; exact.
    pub fn is_on_segment(&self, point: Point) -> (r: bool)
        requires
            self.wf(),
            point.wide(),
        ensures
            r == on_segment_spec(*self, point),
    {
        proof {
            lemma_mul_bounds(self.end.x - self.origin.x, 536870912, point.y - self.origin.y, 536870912);
            lemma_mul_bounds(self.end.y - self.origin.y, 536870912, point.x - self.origin.x, 536870912);
        }
        let cross = mul64(self.end.x - self.origin.x, point.y - self.origin.y)
            - mul64(self.end.y - self.origin.y, point.x - self.origin.x);
        if cross != 0 {
            return false;
        }
        let bx = (self.origin.x <= point.x && point.x <= self.end.x) || (self.end.x <= point.x
            && point.x <= self.origin.x);
        let by = (self.origin.y <= point.y && point.y <= self.end.y) || (self.end.y <= point.y
            && point.y <= self.origin.y);
        bx && by
    }

    /// Where this segment crosses another, if it does.
    pub fn intersection(&self, other: &LineSegment) -> (r: Option<Point>)
        requires
            self.wf(),
            other.wf(),
        ensures
            r == seg_intersection_spec(*self, *other),
            r matches Some(pt) ==> between(self.origin.x as int, pt.x as int, self.end.x as int)
                && between(self.origin.y as int, pt.y as int, self.end.y as int),
    {
        let rx = self.end.x - self.origin.x;
        let ry = self.end.y - self.origin.y;
        let sx = other.end.x - other.origin.x;
        let sy = other.end.y - other.origin.y;
        let qpx = other.origin.x - self.origin.x;
        let qpy = other.origin.y - self.origin.y;
        proof {
            lemma_mul_bounds(rx as int, 536870912, sy as int, 536870912);
            lemma_mul_bounds(ry as int, 536870912, sx as int, 536870912);
            lemma_mul_bounds(qpx as int, 536870912, sy as int, 536870912);
            lemma_mul_bounds(qpy as int, 536870912, sx as int, 536870912);
            lemma_mul_bounds(qpx as int, 536870912, ry as int, 536870912);
            lemma_mul_bounds(qpy as int, 536870912, rx as int, 536870912);
        }
        let den = mul64(rx, sy) - mul64(ry, sx);
        if den == 0 {
            return None;
        }
        let tn = mul64(qpx, sy) - mul64(qpy, sx);
        let un = mul64(qpx, ry) - mul64(qpy, rx);
        let (t, u, dpos) = if den < 0 {
            (-tn, -un, -den)
        } else {
            (tn, un, den)
        };
        if 0 <= t && t <= dpos && 0 <= u && u <= dpos {
            proof {
                lemma_mul_bounds(rx as int, 536870912, t as int, dpos as int);
                lemma_mul_bounds(ry as int, 536870912, t as int, dpos as int);
                lemma_div_bounded(rx * t, 536870912, dpos as int);
                lemma_div_bounded(ry * t, 536870912, dpos as int);
                crate::num::lemma_mul_div_clamped(rx as int, t as int, dpos as int);
                crate::num::lemma_mul_div_clamped(ry as int, t as int, dpos as int);
            }
            let ix = floor_div(
                wide_mul(rx as i128, t as i128, Ghost(536870912), Ghost(1152921504606846976)),
                dpos as i128,
            );
            let iy = floor_div(
                wide_mul(ry as i128, t as i128, Ghost(536870912), Ghost(1152921504606846976)),
                dpos as i128,
            );
            Some(Point { x: self.origin.x + ix as i64, y: self.origin.y + iy as i64 })
        } else {
            None
        }
    }
}

/// Squared length of a segment.
pub open spec fn seg_len2(seg: LineSegment) -> int {
    let abx = seg.end.x - seg.origin.x;
    let aby = seg.end.y - seg.origin.y;
    abx * abx + aby * aby
}

/// The projection parameter of `p` onto `seg`, scaled by the squared
/// length and clamped to the segment.
pub open spec fn clamped_param(seg: LineSegment, p: Point) -> int {
    let abx = seg.end.x - seg.origin.x;
    let aby = seg.end.y - seg.origin.y;
    let d = seg_len2(seg);
    let k0 = abx * (p.x - seg.origin.x) + aby * (p.y - seg.origin.y);
    if k0 < 0 {
        0
    } else if k0 > d {
        d
    } else {
        k0
    }
}

/// A reported crossing lies between the first segment's endpoints, so it
/// stays within the wider coordinate range.
pub proof fn lemma_seg_intersection_wide(a: LineSegment, b: LineSegment)
    requires
        a.wf(),
    ensures
        seg_intersection_spec(a, b) matches Some(pt) ==> pt.wide(),
{
    let rx = a.end.x - a.origin.x;
    let ry = a.end.y - a.origin.y;
    let sx = b.end.x - b.origin.x;
    let sy = b.end.y - b.origin.y;
    let den = rx * sy - ry * sx;
    if den != 0 {
        let dpos = if den < 0 { -den } else { den };
        let tn = (b.origin.x - a.origin.x) * sy - (b.origin.y - a.origin.y) * sx;
        let t = if den < 0 { -tn } else { tn };
        if 0 <= t <= dpos {
            crate::num::lemma_mul_div_clamped(rx, t, dpos);
            crate::num::lemma_mul_div_clamped(ry, t, dpos);
        }
    }
}

/// The point of a segment's infinite line at the parameter `tn / td`, or
/// nothing when its rounded coordinates leave the wider range (with
/// representable inputs the crossings of a circle never do).
pub open spec fn seg_line_point_at(seg: LineSegment, tn: int, td: int) -> Option<Point> {
    let dx = seg.end.x - seg.origin.x;
    let dy = seg.end.y - seg.origin.y;
    let xi = seg.origin.x + dx * tn / td;
    let yi = seg.origin.y + dy * tn / td;
    if crate::num::wide_range(xi) && crate::num::wide_range(yi) {
        Option::Some(Point { x: xi as i64, y: yi as i64 })
    } else {
        Option::None
    }
}

/// Where a segment's infinite line meets a circle: none, one, or two
/// points, from the roots of the quadratic in the line parameter, with the
/// root of the rounded-down discriminant.
pub open spec fn seg_circle_spec(seg: LineSegment, center: Point, radius: int) -> (
    Option<Point>,
    Option<Point>,
) {
    let dx = seg.end.x - seg.origin.x;
    let dy = seg.end.y - seg.origin.y;
    let fx = seg.origin.x - center.x;
    let fy = seg.origin.y - center.y;
    let a = dx * dx + dy * dy;
    let b = 2 * (dx * fx + dy * fy);
    let c = fx * fx + fy * fy - radius * radius;
    let det = b * b - 4 * (a * c);
    if det < 0 {
        (Option::None, Option::None)
    } else if det == 0 {
        (seg_line_point_at(seg, -b, 2 * a), Option::None)
    } else {
        let s = crate::num::sqrt_floor(det as nat) as int;
        (seg_line_point_at(seg, -b + s, 2 * a), seg_line_point_at(seg, -b - s, 2 * a))
    }
}

impl LineSegment {
    /// The up-to-two points where this segment crosses a convex polygon's
    /// boundary, in edge order; crossings at a shared vertex are counted
    /// once. The caller vouches for convexity: no more than two distinct
    /// crossings may exist.
    pub fn intersection_polygon(&self, polygon: &Polygon) -> (r: (Option<Point>, Option<Point>))
        requires
            self.wf(),
            poly_wf(polygon.vertices@),
            crossings_list(*self, polygon.vertices@, polygon.vertices@.len() as int).len() <= 2,
        ensures
            ({
                let l = crossings_list(*self, polygon.vertices@, polygon.vertices@.len() as int);
                &&& (l.len() == 0 ==> r == (Option::<Point>::None, Option::<Point>::None))
                &&& (l.len() == 1 ==> r == (Option::Some(l[0]), Option::<Point>::None))
                &&& (l.len() == 2 ==> r == (Option::Some(l[0]), Option::Some(l[1])))
            }),
    {
        let ghost poly = polygon.vertices@;
        let n = polygon.vertices.len();
        let mut first: Option<Point> = None;
        let mut second: Option<Point> = None;
        let mut i: usize = 0;
        while i < n
            invariant
                i <= n,
                n == poly.len(),
                poly == polygon.vertices@,
                self.wf(),
                poly_wf(poly),
                crossings_list(*self, poly, n as int).len() <= 2,
                ({
                    let l = crossings_list(*self, poly, i as int);
                    &&& l.len() <= 2
                    &&& (first is None <==> l.len() == 0)
                    &&& (l.len() >= 1 ==> first == Option::Some(l[0]))
                    &&& (second is None <==> l.len() <= 1)
                    &&& (l.len() == 2 ==> second == Option::Some(l[1]))
                }),
            decreases n - i,
        {
            proof {
                lemma_crossings_list_grows(*self, poly, i as int, n as int);
                lemma_crossings_list_grows(*self, poly, i + 1, n as int);
            }
            let e = LineSegment {
                origin: polygon.vertices[i],
                end: polygon.vertices[(i + 1) % n],
            };
            proof {
                assert(e == edge(poly, i as int));
            }
            if let Some(pt) = self.intersection(&e) {
                proof {
                    let prev = crossings_list(*self, poly, i as int);
                    assert(prev.contains(pt) <==> (prev.len() >= 1 && prev[0] == pt) || (
                    prev.len() >= 2 && prev[1] == pt)) by {
                        if prev.contains(pt) {
                            let k = choose|k: int| 0 <= k < prev.len() && prev[k] == pt;
                        }
                    }
                }
                match first {
                    None => {
                        first = Some(pt);
                    },
                    Some(f) => {
                        if pt != f {
                            match second {
                                None => {
                                    second = Some(pt);
                                },
                                Some(sd) => {
                                    proof {
                                        if pt != sd {
                                            assert(crossings_list(*self, poly, i + 1).len() == 3);
                                        }
                                    }
                                },
                            }
                        }
                    },
                }
            }
            i += 1;
        }
        (first, second)
    }

    /// The point of this segment's infinite line at the parameter
    /// `tn / td`, when it stays representable.
    fn point_at(&self, tn: i128, td: i128) -> (r: Option<Point>)
        requires
            self.wf(),
            1 <= td,
            crate::num::iabs(tn as int) <= 1152921504606846976,
        ensures
            r == seg_line_point_at(*self, tn as int, td as int),
            r matches Some(p) ==> p.wide(),
    {
        let dx = (self.end.x - self.origin.x) as i128;
        let dy = (self.end.y - self.origin.y) as i128;
        let px = wide_mul(dx, tn, Ghost(268435456), Ghost(1152921504606846976));
        let py = wide_mul(dy, tn, Ghost(268435456), Ghost(1152921504606846976));
        proof {
            crate::num::lemma_div_magnitude(dx as int * tn as int, td as int);
            crate::num::lemma_div_magnitude(dy as int * tn as int, td as int);
        }
        let qx = floor_div(px, td);
        let qy = floor_div(py, td);
        let xi = self.origin.x as i128 + qx;
        let yi = self.origin.y as i128 + qy;
        if -134217728 <= xi && xi <= 134217728 && -134217728 <= yi && yi <= 134217728 {
            Some(Point { x: xi as i64, y: yi as i64 })
        } else {
            None
        }
    }

    /// Where this segment's infinite line meets a circle: the roots of the
    /// substituted quadratic, with the discriminant's square root rounded
    /// down.
    pub fn intersection_circle(&self, circle: &Circle) -> (r: (Option<Point>, Option<Point>))
        requires
            self.wf(),
            self.nondegenerate(),
            circle.wf(),
        ensures
            r == seg_circle_spec(*self, circle.center, circle.radius as int),
            r.0 matches Some(p) ==> p.wide(),
            r.1 matches Some(p) ==> p.wide(),
    {
        let dx = (self.end.x - self.origin.x) as i128;
        let dy = (self.end.y - self.origin.y) as i128;
        let fx = (self.origin.x - circle.center.x) as i128;
        let fy = (self.origin.y - circle.center.y) as i128;
        proof {
            if self.end.x != self.origin.x {
                lemma_sq_pos(dx as int);
            } else {
                lemma_sq_pos(dy as int);
            }
            crate::num::lemma_sq_nonneg(dx as int);
            crate::num::lemma_sq_nonneg(dy as int);
        }
        let a = wide_mul(dx, dx, Ghost(268435456), Ghost(268435456)) + wide_mul(
            dy,
            dy,
            Ghost(268435456),
            Ghost(268435456),
        );
        let b = 2 * (wide_mul(dx, fx, Ghost(268435456), Ghost(268435456)) + wide_mul(
            dy,
            fy,
            Ghost(268435456),
            Ghost(268435456),
        ));
        let c = wide_mul(fx, fx, Ghost(268435456), Ghost(268435456)) + wide_mul(
            fy,
            fy,
            Ghost(268435456),
            Ghost(268435456),
        ) - wide_mul(
            circle.radius as i128,
            circle.radius as i128,
            Ghost(16777216),
            Ghost(16777216),
        );
        let det = wide_mul(b, b, Ghost(288230376151711744), Ghost(288230376151711744)) - 4
            * wide_mul(a, c, Ghost(144115188075855872), Ghost(288230376151711744));
        if det < 0 {
            return (None, None);
        }
        if det == 0 {
            return (self.point_at(-b, 2 * a), None);
        }
        let s = isqrt(det);
        proof {
            lemma_sqrt_below(det as int, s as int, 576460752303423488);
        }
        (self.point_at(-b + s, 2 * a), self.point_at(-b - s, 2 * a))
    }
}

} // verus!
