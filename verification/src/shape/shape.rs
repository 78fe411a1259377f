//! The common capability of every concrete shape, and the shared
//! polygon-based ray-contact and edge-normal queries.

use crate::base::angle::Angle;
use crate::base::line_segment::{on_segment_spec, LineSegment};
use crate::base::point::{dist2, Point};
use crate::base::vector::{unit_spec, Vector};
use crate::collision::bounding_box::BoundingBox;
use crate::num::{lemma_div_bounded, lemma_mul_bounds, COORD_LIMIT};
use crate::shape::polygon::{crossings_list, edge, edges_nondegenerate, Polygon};
use vstd::prelude::*;

verus! {

/// Which concrete shape a value is.
#[derive(Clone, Copy, Debug, PartialEq, Eq, Structural)]
pub enum ShapeType {
    Circle,
    Rectangle,
    Hexagon,
}

/// The common capability of the concrete shapes: a center, an enclosing
/// radius, rigid motions, a polygon view of the boundary, and closest-point
/// and ray-contact queries. Each implementation pins every operation to its
/// own specification function.
pub trait Shape: Sized {
    /// The shape's defining data is representable and its boundary stays in
    /// the coordinate range.
    spec fn wf(&self) -> bool;

    /// Which concrete shape this is.
    spec fn type_spec(&self) -> ShapeType;

    /// The shape's center.
    spec fn center_spec(&self) -> Point;

    /// The radius of a circle about the center that contains the shape.
    spec fn enclosing_radius_spec(&self) -> int;

    /// The vertices of the shape's polygon view.
    spec fn polygon_spec(&self) -> Seq<Point>;

    /// The axis-aligned box the shape reports.
    spec fn bounding_box_spec(&self) -> BoundingBox;

    /// What the closest-point query returns.
    spec fn closest_point_spec(&self, point: Point) -> Point;

    /// When the closest-point query is defined.
    spec fn closest_point_pre(&self, point: Point) -> bool;

    /// What the ray-contact query returns.
    spec fn contact_point_spec(&self, origin: Point, direction: Vector) -> Option<Point>;

    /// When the ray-contact query is defined.
    spec fn contact_point_pre(&self, origin: Point, direction: Vector) -> bool;

    /// What the edge-normal query returns.
    spec fn normal_at_spec(&self, point: Point) -> Option<Vector>;

    /// When the edge-normal query is defined.
    spec fn normal_at_pre(&self, point: Point) -> bool;

    /// The shape displaced by a vector.
    spec fn translated(&self, vector: Vector) -> Self;

    /// The shape recentered on a point.
    spec fn moved_to(&self, point: Point) -> Self;

    /// The shape turned by an angle about its own center.
    spec fn rotated(&self, theta: Angle) -> Self;

    /// The shape turned to an absolute orientation.
    spec fn rotated_to(&self, phi: Angle) -> Self;

    /// The shape revolved about an external pivot.
    spec fn rotated_about(&self, point: Point, theta: Angle) -> Self;

    /// Which concrete shape this is.
    fn get_type(&self) -> (t: ShapeType)
        ensures
            t == self.type_spec(),
    ;

    /// The shape's center.
    fn center(&self) -> (c: Point)
        requires
            self.wf(),
        ensures
            c == self.center_spec(),
            c.wf(),
    ;

    /// The radius of a circle about the center that contains the shape.
    fn enclosing_radius(&self) -> (r: i64)
        requires
            self.wf(),
        ensures
            r == self.enclosing_radius_spec(),
            0 <= r <= COORD_LIMIT,
    ;

    /// Displaces the shape in place.
    fn translate(&mut self, vector: Vector)
        requires
            old(self).wf(),
            vector.wf(),
            old(self).translated(vector).wf(),
        ensures
            *final(self) == old(self).translated(vector),
    ;

    /// Recenters the shape in place.
    fn move_to(&mut self, point: Point)
        requires
            old(self).wf(),
            point.wf(),
            old(self).moved_to(point).wf(),
        ensures
            *final(self) == old(self).moved_to(point),
    ;

    /// Turns the shape in place about its own center.
    fn rotate(&mut self, theta: Angle)
        requires
            old(self).wf(),
            theta.wf(),
        ensures
            *final(self) == old(self).rotated(theta),
            final(self).wf(),
    ;

    /// Turns the shape in place to an absolute orientation.
    fn rotate_to(&mut self, phi: Angle)
        requires
            old(self).wf(),
            phi.wf(),
        ensures
            *final(self) == old(self).rotated_to(phi),
            final(self).wf(),
    ;

    /// Revolves the shape in place about an external pivot.
    fn rotate_about(&mut self, point: Point, theta: Angle)
        requires
            old(self).wf(),
            point.wf(),
            theta.wf(),
            old(self).rotated_about(point, theta).wf(),
        ensures
            *final(self) == old(self).rotated_about(point, theta),
    ;

    /// The polygon view of the boundary.
    fn polygon(&self) -> (p: Polygon)
        requires
            self.wf(),
        ensures
            p.vertices@ == self.polygon_spec(),
            p.wf(),
            p.vertices@.len() >= 1,
    ;

    /// The axis-aligned box the shape reports.
    fn bounding_box(&self) -> (b: BoundingBox)
        requires
            self.wf(),
        ensures
            b == self.bounding_box_spec(),
            b.wf(),
    ;

    /// The boundary point nearest to `point`.
    fn closest_point(&self, point: Point) -> (r: Point)
        requires
            self.wf(),
            point.wf(),
            self.closest_point_pre(point),
        ensures
            r == self.closest_point_spec(point),
            r.wf(),
    ;

    /// Where a ray from `origin` along `direction`, extended far enough to
    /// cross the whole shape, first meets the boundary.
    fn contact_point(&self, origin: Point, direction: Vector) -> (r: Option<Point>)
        requires
            self.wf(),
            origin.wf(),
            direction.wf(),
            self.contact_point_pre(origin, direction),
        ensures
            r == self.contact_point_spec(origin, direction),
            r matches Some(p) ==> p.wide(),
    ;

    /// The outward unit normal of the boundary edge `point` lies on, if
    /// any.
    fn get_normal_vector_at(&self, point: Point) -> (r: Option<Vector>)
        requires
            self.wf(),
            point.wide(),
            self.normal_at_pre(point),
        ensures
            r == self.normal_at_spec(point),
    ;
}

/// The probe segment of a ray-contact query: from `origin` along the
/// direction vector, long enough (the origin-to-center distance plus the
/// enclosing radius) to cross the whole shape.
pub open spec fn contact_segment(
    center: Point,
    radius: int,
    origin: Point,
    direction: Vector,
) -> LineSegment {
    let mag = crate::num::sqrt_floor(dist2(origin, center) as nat) + radius;
    let u = unit_spec(direction);
    LineSegment {
        origin,
        end: Point {
            x: (origin.x + u.dx * mag / 1000) as i64,
            y: (origin.y + u.dy * mag / 1000) as i64,
        },
    }
}

/// What a polygon ray-contact query returns: the nearer (to the ray origin)
/// of the probe segment's boundary crossings, or nothing when it misses.
pub open spec fn poly_contact_spec(
    poly: Seq<Point>,
    center: Point,
    radius: int,
    origin: Point,
    direction: Vector,
) -> Option<Point> {
    let seg = contact_segment(center, radius, origin, direction);
    let l = crossings_list(seg, poly, poly.len() as int);
    if l.len() == 0 {
        Option::None
    } else if l.len() == 1 {
        Option::Some(l[0])
    } else if dist2(origin, l[0]) < dist2(origin, l[1]) {
        Option::Some(l[0])
    } else {
        Option::Some(l[1])
    }
}

/// The outward unit normal of the first boundary edge at index `i` or
/// beyond on which `p` lies, scanning in edge order.
pub open spec fn normal_at_from(poly: Seq<Point>, p: Point, i: int) -> Option<Vector>
    decreases poly.len() - i,
{
    if i < 0 || i >= poly.len() {
        Option::None
    } else if on_segment_spec(edge(poly, i), p) {
        Option::Some(edge_normal(poly, i))
    } else {
        normal_at_from(poly, p, i + 1)
    }
}

/// The unit normal of the `i`-th edge: the edge's end-to-origin
/// displacement turned a quarter turn and rescaled to direction length.
pub open spec fn edge_normal(poly: Seq<Point>, i: int) -> Vector {
    let e = edge(poly, i);
    unit_spec(
        Vector {
            dx: (-(e.origin.y - e.end.y)) as i64,
            dy: (e.origin.x - e.end.x) as i64,
        },
    )
}

/// The ray-contact query over a polygon boundary, shared by the polygonal
/// shapes.
pub fn polygon_contact_point(
    polygon: &Polygon,
    center: Point,
    radius: i64,
    origin: Point,
    direction: Vector,
) -> (r: Option<Point>)
    requires
        polygon.wf(),
        center.wf(),
        origin.wf(),
        direction.wf(),
        direction.dx != 0 || direction.dy != 0,
        0 <= radius <= COORD_LIMIT,
        crossings_list(
            contact_segment(center, radius as int, origin, direction),
            polygon.vertices@,
            polygon.vertices@.len() as int,
        ).len() <= 2,
    ensures
        r == poly_contact_spec(
            polygon.vertices@,
            center,
            radius as int,
            origin,
            direction,
        ),
        r matches Some(p) ==> p.wide(),
{
    let dist = origin.distance_to(center);
    let mag = dist + radius;
    let u = direction.get_unit_vector();
    let ext = u.mul_milli(mag);
    proof {
        lemma_mul_bounds(u.dx as int, 1000, mag as int, mag as int);
        lemma_mul_bounds(u.dy as int, 1000, mag as int, mag as int);
        lemma_div_bounded(u.dx * mag, mag as int, 1000);
        lemma_div_bounded(u.dy * mag, mag as int, 1000);
    }
    let seg = LineSegment {
        origin,
        end: Point { x: origin.x + ext.dx, y: origin.y + ext.dy },
    };
    proof {
        assert(seg == contact_segment(center, radius as int, origin, direction));
    }
    let (ia, ib) = seg.intersection_polygon(polygon);
    proof {
        crate::shape::polygon::lemma_crossings_wide(
            seg,
            polygon.vertices@,
            polygon.vertices@.len() as int,
        );
    }
    match (ia, ib) {
        (Some(a), Some(b)) => {
            let da = origin.squared_distance_to(a);
            let db = origin.squared_distance_to(b);
            if da < db {
                Some(a)
            } else {
                Some(b)
            }
        },
        (Some(a), None) => Some(a),
        (None, _) => None,
    }
}

/// The edge-normal query over a polygon boundary, shared by the polygonal
/// shapes.
pub fn polygon_normal_at(polygon: &Polygon, point: Point) -> (r: Option<Vector>)
    requires
        polygon.wf(),
        point.wide(),
        edges_nondegenerate(polygon.vertices@),
    ensures
        r == normal_at_from(polygon.vertices@, point, 0),
{
    let ghost poly = polygon.vertices@;
    let n = polygon.vertices.len();
    let mut i: usize = 0;
    while i < n
        invariant
            i <= n,
            n == poly.len(),
            poly == polygon.vertices@,
            polygon.wf(),
            point.wide(),
            edges_nondegenerate(poly),
            normal_at_from(poly, point, 0) == normal_at_from(poly, point, i as int),
        decreases n - i,
    {
        let e = LineSegment {
            origin: polygon.vertices[i],
            end: polygon.vertices[(i + 1) % n],
        };
        proof {
            assert(e == edge(poly, i as int));
        }
        if e.is_on_segment(point) {
            let v = e.to_vector();
            let nv = v.get_normal_vector();
            return Some(nv.get_unit_vector());
        }
        i += 1;
    }
    None
}

} // verus!
