//! Circles, with a radius-scaled tessellation as their polygon view.

use crate::base::angle::{cos_spec, sin_spec, Angle};
use crate::base::point::{dist2, Point};
use crate::base::vector::{unit_spec, Vector};
use crate::collision::bounding_box::BoundingBox;
use crate::base::size::Size;
use crate::num::{
    floor_div, in_range, isqrt, lemma_div_below, lemma_div_bounded, lemma_mul_bounds,
    lemma_sqrt_below, mul64, sqrt_floor, COORD_LIMIT,
};
use crate::shape::polygon::Polygon;
use crate::shape::shape::{contact_segment, Shape, ShapeType};
use vstd::prelude::*;

verus! {

/// A circle: a center and a radius.
#[derive(Clone, Copy, Debug, PartialEq, Eq, Structural)]
pub struct Circle {
    pub center: Point,
    pub radius: i64,
}

/// How many vertices the tessellated polygon view of a circle of the given
/// radius has: four plus four per whole unit of the radius's square root,
/// so the curvature error stays bounded as circles grow.
pub open spec fn circle_vertex_count(radius: int) -> int {
    4 + 4 * (sqrt_floor((radius / 1000) as nat) as int)
}

/// The `i`-th tessellation vertex of a circle: on the circle (up to
/// rounding) at `i` times the full turn divided by the vertex count.
pub open spec fn circle_vertex(c: Circle, n: int, i: int) -> Point {
    let ang = i * 360000 / n;
    Point {
        x: (c.center.x + c.radius * cos_spec(ang) / 1000) as i64,
        y: (c.center.y + c.radius * sin_spec(ang) / 1000) as i64,
    }
}

/// The tessellated polygon view of a circle.
pub open spec fn circle_poly(c: Circle) -> Seq<Point> {
    Seq::new(circle_vertex_count(c.radius as int) as nat, |i: int|
        circle_vertex(c, circle_vertex_count(c.radius as int), i))
}

/// The exact closest point of a circle to an outside query: the query
/// projected onto the circle along the center-to-query direction.
pub open spec fn circle_closest_spec(c: Circle, p: Point) -> Point {
    let u = unit_spec(Vector { dx: (p.x - c.center.x) as i64, dy: (p.y - c.center.y) as i64 });
    Point {
        x: (c.center.x + u.dx * c.radius / 1000) as i64,
        y: (c.center.y + u.dy * c.radius / 1000) as i64,
    }
}

/// Translating a circle by a displacement and then by its opposite restores
/// it exactly.
pub proof fn lemma_circle_translate_inverse(c: Circle, v: Vector)
    requires
        c.wf(),
        v.wf(),
    ensures
        c.translated(v).translated(Vector { dx: (-v.dx) as i64, dy: (-v.dy) as i64 }) == c,
{
}

impl Circle {
    /// The radius is a nonnegative representable count and the whole disc
    /// stays within the coordinate range.
    pub open spec fn wf(&self) -> bool {
        &&& 0 <= self.radius <= COORD_LIMIT
        &&& in_range(self.center.x - self.radius)
        &&& in_range(self.center.x + self.radius)
        &&& in_range(self.center.y - self.radius)
        &&& in_range(self.center.y + self.radius)
    }

    /// The circle with the given center and radius.
    pub fn new(center: Point, radius: i64) -> (r: Circle)
        ensures
            r == (Circle { center, radius }),
    {
        Circle { center, radius }
    }

    /// The radius.
    pub fn radius(&self) -> (r: i64)
        ensures
            r == self.radius,
    {
        self.radius
    }

    /// Whether a point lies strictly inside the circle, by rounded-down
    /// distance.
    pub fn is_inslide(&self, point: Point) -> (r: bool)
        requires
            self.wf(),
            point.wf(),
        ensures
            r == (sqrt_floor(dist2(self.center, point) as nat) < self.radius),
    {
        self.center.distance_to(point) < self.radius
    }
}

impl Shape for Circle {
    open spec fn wf(&self) -> bool {
        Circle::wf(self)
    }

    open spec fn type_spec(&self) -> ShapeType {
        ShapeType::Circle
    }

    open spec fn center_spec(&self) -> Point {
        self.center
    }

    open spec fn enclosing_radius_spec(&self) -> int {
        self.radius as int
    }

    open spec fn polygon_spec(&self) -> Seq<Point> {
        circle_poly(*self)
    }

    open spec fn bounding_box_spec(&self) -> BoundingBox {
        BoundingBox { center: self.center, half: Size { w: self.radius, h: self.radius } }
    }

    open spec fn closest_point_spec(&self, point: Point) -> Point {
        circle_closest_spec(*self, point)
    }

    open spec fn closest_point_pre(&self, point: Point) -> bool {
        point != self.center
    }

    open spec fn contact_point_spec(&self, origin: Point, direction: Vector) -> Option<Point> {
        let seg = contact_segment(self.center, self.radius as int, origin, direction);
        let pair = crate::base::line_segment::seg_circle_spec(seg, self.center, self.radius as int);
        match pair {
            (Option::Some(a), Option::Some(b)) => if dist2(origin, a) < dist2(origin, b) {
                Option::Some(a)
            } else {
                Option::Some(b)
            },
            (Option::Some(a), Option::None) => Option::Some(a),
            (Option::None, _) => Option::None,
        }
    }

    open spec fn contact_point_pre(&self, origin: Point, direction: Vector) -> bool {
        &&& (direction.dx != 0 || direction.dy != 0)
        &&& contact_segment(self.center, self.radius as int, origin, direction).nondegenerate()
    }

    open spec fn normal_at_spec(&self, point: Point) -> Option<Vector> {
        if sqrt_floor(dist2(point, self.center) as nat) == self.radius {
            Option::Some(
                unit_spec(
                    Vector {
                        dx: (point.x - self.center.x) as i64,
                        dy: (point.y - self.center.y) as i64,
                    },
                ),
            )
        } else {
            Option::None
        }
    }

    open spec fn normal_at_pre(&self, point: Point) -> bool {
        point != self.center
    }

    open spec fn translated(&self, vector: Vector) -> Circle {
        Circle {
            center: Point {
                x: (self.center.x + vector.dx) as i64,
                y: (self.center.y + vector.dy) as i64,
            },
            radius: self.radius,
        }
    }

    open spec fn moved_to(&self, point: Point) -> Circle {
        Circle { center: point, radius: self.radius }
    }

    open spec fn rotated(&self, theta: Angle) -> Circle {
        *self
    }

    open spec fn rotated_to(&self, phi: Angle) -> Circle {
        *self
    }

    open spec fn rotated_about(&self, point: Point, theta: Angle) -> Circle {
        Circle { center: self.center.rotated_about(point, theta), radius: self.radius }
    }

    fn get_type(&self) -> (t: ShapeType) {
        ShapeType::Circle
    }

    fn center(&self) -> (c: Point) {
        self.center
    }

    fn enclosing_radius(&self) -> (r: i64) {
        self.radius
    }

    fn translate(&mut self, vector: Vector) {
        self.center = self.center.add_vector(vector);
    }

    fn move_to(&mut self, point: Point) {
        self.center = point;
    }

    fn rotate(&mut self, theta: Angle) {
        // a circle is unchanged by rotation about its own center
    }

    fn rotate_to(&mut self, phi: Angle) {
        // a circle is unchanged by rotation about its own center
    }

    fn rotate_about(&mut self, point: Point, theta: Angle) {
        self.center.rotate_about(point, theta);
    }

    fn polygon(&self) -> (p: Polygon) {
        let scaled = self.radius / 1000;
        let root = isqrt(scaled as i128);
        proof {
            lemma_sqrt_below(scaled as int, root as int, 130);
        }
        let n: usize = 4 + 4 * (root as usize);
        let mut vertices: Vec<Point> = Vec::new();
        let mut i: usize = 0;
        while i < n
            invariant
                i <= n,
                n == circle_vertex_count(self.radius as int),
                4 <= n <= 524,
                Circle::wf(self),
                vertices@.len() == i,
                forall|j: int| 0 <= j < i ==> vertices@[j] == circle_vertex(*self, n as int, j),
                forall|j: int| 0 <= j < i ==> (#[trigger] vertices@[j]).wf(),
            decreases n - i,
        {
            proof {
                assert((i as int) * 360000 < (n as int) * 360000 && 0 <= (i as int) * 360000)
                    by (nonlinear_arith)
                    requires
                        0 <= i < n,
                ;
                assert((n as int) * 360000 == 360000 * (n as int)) by (nonlinear_arith);
                lemma_div_below((i as int) * 360000, 360000, n as int);
            }
            let ang = Angle { mdeg: ((i as i64) * 360000) / (n as i64) };
            let cv = ang.cos();
            let sv = ang.sin();
            proof {
                lemma_mul_bounds(self.radius as int, self.radius as int, cv as int, 1000);
                lemma_mul_bounds(self.radius as int, self.radius as int, sv as int, 1000);
                lemma_div_bounded(self.radius * cv, self.radius as int, 1000);
                lemma_div_bounded(self.radius * sv, self.radius as int, 1000);
            }
            let ox = floor_div(mul64(self.radius, cv) as i128, 1000);
            let oy = floor_div(mul64(self.radius, sv) as i128, 1000);
            vertices.push(Point { x: self.center.x + ox as i64, y: self.center.y + oy as i64 });
            i += 1;
        }
        proof {
            assert(vertices@ =~= circle_poly(*self));
        }
        Polygon { vertices }
    }

    fn bounding_box(&self) -> (b: BoundingBox) {
        BoundingBox { center: self.center, half: Size { w: self.radius, h: self.radius } }
    }

    fn closest_point(&self, point: Point) -> (r: Point) {
        let v = Vector::new(point.x - self.center.x, point.y - self.center.y);
        let u = v.get_unit_vector();
        proof {
            lemma_mul_bounds(u.dx as int, 1000, self.radius as int, self.radius as int);
            lemma_mul_bounds(u.dy as int, 1000, self.radius as int, self.radius as int);
            lemma_div_bounded(u.dx * self.radius, self.radius as int, 1000);
            lemma_div_bounded(u.dy * self.radius, self.radius as int, 1000);
        }
        let ox = floor_div(mul64(u.dx, self.radius) as i128, 1000);
        let oy = floor_div(mul64(u.dy, self.radius) as i128, 1000);
        Point { x: self.center.x + ox as i64, y: self.center.y + oy as i64 }
    }

    fn contact_point(&self, origin: Point, direction: Vector) -> (r: Option<Point>) {
        let dist = origin.distance_to(self.center);
        let mag = dist + self.radius;
        let u = direction.get_unit_vector();
        let ext = u.mul_milli(mag);
        proof {
            lemma_mul_bounds(u.dx as int, 1000, mag as int, mag as int);
            lemma_mul_bounds(u.dy as int, 1000, mag as int, mag as int);
            lemma_div_bounded(u.dx * mag, mag as int, 1000);
            lemma_div_bounded(u.dy * mag, mag as int, 1000);
        }
        let seg = crate::base::line_segment::LineSegment {
            origin,
            end: Point { x: origin.x + ext.dx, y: origin.y + ext.dy },
        };
        proof {
            assert(seg == contact_segment(self.center, self.radius as int, origin, direction));
        }
        let (ia, ib) = seg.intersection_circle(self);
        match (ia, ib) {
            (Some(a), Some(b)) => {
                let da = origin.squared_distance_to(a);
                let db = origin.squared_distance_to(b);
                if da < db {
                    Some(a)
                } else {
                    Some(b)
                }
            },
            (Some(a), None) => Some(a),
            (None, _) => None,
        }
    }

    fn get_normal_vector_at(&self, point: Point) -> (r: Option<Vector>) {
        let d = point.distance_to(self.center);
        if d == self.radius {
            let v = Vector::new(point.x - self.center.x, point.y - self.center.y);
            Some(v.get_unit_vector())
        } else {
            None
        }
    }
}

} // verus!
