//! Broad-phase helpers for shape pairs the narrow phase does not cover: a
//! cheap radius-sum pre-filter and an exhaustive vertex-to-boundary scan
//! giving an approximate minimum distance.

use crate::base::point::{dist2, Point};
use crate::base::vector::Vector;
use crate::num::{sqrt_floor, COORD_LIMIT};
use crate::shape::shape::{Shape, ShapeType};
use vstd::prelude::*;

verus! {

/// The rounded-down distance from a vertex to the other shape's nearest
/// boundary point.
pub open spec fn gap_at<B: Shape>(b: B, v: Point) -> int {
    sqrt_floor(dist2(v, b.closest_point_spec(v)) as nat) as int
}

/// One leg of the closest-point scan: walks the vertices of one polygon
/// from index `i`, keeping the first strictly smaller gap; the running best
/// carries the gap, the scanned vertex, and the other shape's closest
/// point, in that order.
pub open spec fn scan_vertices<B: Shape>(
    b: B,
    poly: Seq<Point>,
    i: int,
    cur: (int, Point, Point),
    vertex_first: bool,
) -> (int, Point, Point)
    decreases poly.len() - i,
{
    if i < 0 || i >= poly.len() {
        cur
    } else {
        let v = poly[i];
        let c = b.closest_point_spec(v);
        let g = gap_at(b, v);
        let nxt = if g < cur.0 {
            if vertex_first {
                (g, v, c)
            } else {
                (g, c, v)
            }
        } else {
            cur
        };
        scan_vertices(b, poly, i + 1, nxt, vertex_first)
    }
}

/// The full scan over both shapes' polygons: first this shape's vertices
/// against the other's boundary, then the other way around.
pub open spec fn closest_scan<A: Shape, B: Shape>(a: A, b: B) -> (int, Point, Point) {
    let first = scan_vertices(
        b,
        a.polygon_spec(),
        0,
        (
            9223372036854775807,
            Point { x: 0, y: 0 },
            Point { x: 0, y: 0 },
        ),
        true,
    );
    scan_vertices(a, b.polygon_spec(), 0, first, false)
}

/// Every vertex of one shape's polygon is a point the other shape's
/// closest-point query accepts.
pub open spec fn scan_pre<A: Shape, B: Shape>(a: A, b: B) -> bool {
    &&& forall|i: int|
        0 <= i < a.polygon_spec().len() ==> b.closest_point_pre(#[trigger] a.polygon_spec()[i])
    &&& forall|i: int|
        0 <= i < b.polygon_spec().len() ==> a.closest_point_pre(#[trigger] b.polygon_spec()[i])
}

/// The cheap pre-filter: two shapes are close when their center distance,
/// plus a margin, is under the sum of their enclosing radii.
pub fn are_close<A: Shape, B: Shape>(shape_a: &A, shape_b: &B, margin: i64) -> (r: bool)
    requires
        shape_a.wf(),
        shape_b.wf(),
        -COORD_LIMIT <= margin <= COORD_LIMIT,
    ensures
        r == (sqrt_floor(dist2(shape_a.center_spec(), shape_b.center_spec()) as nat) + margin
            < shape_a.enclosing_radius_spec() + shape_b.enclosing_radius_spec()),
{
    let d = shape_a.center().distance_to(shape_b.center());
    d + margin < shape_a.enclosing_radius() + shape_b.enclosing_radius()
}

/// The approximate distance between two shapes: the smallest gap found by
/// scanning each one's polygon vertices against the other's boundary.
pub fn distance<A: Shape, B: Shape>(shape_a: &A, shape_b: &B) -> (r: i64)
    requires
        shape_a.wf(),
        shape_b.wf(),
        scan_pre(*shape_a, *shape_b),
    ensures
        r == closest_scan(*shape_a, *shape_b).0,
{
    let (d, _, _) = distance_closest_points(shape_a, shape_b);
    d
}

/// The approximate distance between two shapes together with the two
/// closest points the scan found, the first on (or queried from) `shape_a`
/// and the second on `shape_b`.
pub fn distance_closest_points<A: Shape, B: Shape>(shape_a: &A, shape_b: &B) -> (r: (
    i64,
    Point,
    Point,
))
    requires
        shape_a.wf(),
        shape_b.wf(),
        scan_pre(*shape_a, *shape_b),
    ensures
        (r.0 as int, r.1, r.2) == closest_scan(*shape_a, *shape_b),
{
    let ghost apoly = shape_a.polygon_spec();
    let ghost bpoly = shape_b.polygon_spec();
    let poly_a = shape_a.polygon();
    let poly_b = shape_b.polygon();
    let mut best: i64 = 9223372036854775807;
    let mut best_point_a = Point::zero();
    let mut best_point_b = Point::zero();
    let ghost init = (
        9223372036854775807int,
        Point { x: 0, y: 0 },
        Point { x: 0, y: 0 },
    );
    let mut i: usize = 0;
    while i < poly_a.vertices.len()
        invariant
            i <= poly_a.vertices@.len(),
            poly_a.vertices@ == apoly,
            poly_a.wf(),
            shape_a.wf(),
            shape_b.wf(),
            scan_pre(*shape_a, *shape_b),
            apoly == shape_a.polygon_spec(),
            scan_vertices(*shape_b, apoly, 0, init, true) == scan_vertices(
                *shape_b,
                apoly,
                i as int,
                (best as int, best_point_a, best_point_b),
                true,
            ),
        decreases poly_a.vertices@.len() - i,
    {
        let v = poly_a.vertices[i];
        let c = shape_b.closest_point(v);
        let g = v.distance_to(c);
        if g < best {
            best = g;
            best_point_a = v;
            best_point_b = c;
        }
        i += 1;
    }
    let ghost mid = scan_vertices(*shape_b, apoly, 0, init, true);
    let mut j: usize = 0;
    while j < poly_b.vertices.len()
        invariant
            j <= poly_b.vertices@.len(),
            poly_b.vertices@ == bpoly,
            poly_b.wf(),
            shape_a.wf(),
            shape_b.wf(),
            scan_pre(*shape_a, *shape_b),
            bpoly == shape_b.polygon_spec(),
            scan_vertices(*shape_a, bpoly, 0, mid, false) == scan_vertices(
                *shape_a,
                bpoly,
                j as int,
                (best as int, best_point_a, best_point_b),
                false,
            ),
        decreases poly_b.vertices@.len() - j,
    {
        let v = poly_b.vertices[j];
        let c = shape_a.closest_point(v);
        let g = v.distance_to(c);
        if g < best {
            best = g;
            best_point_a = c;
            best_point_b = v;
        }
        j += 1;
    }
    (best, best_point_a, best_point_b)
}

/// Where a ball moving along `ball_direction` would bounce off `object`:
/// the outward normal of the boundary edge at the contact point, if the
/// extended ray meets the object at all.
pub open spec fn ball_bounce_spec<A: Shape, B: Shape>(
    ball: A,
    ball_direction: Vector,
    object: B,
) -> Option<Vector> {
    match object.contact_point_spec(ball.center_spec(), ball_direction) {
        Option::Some(p) => object.normal_at_spec(p),
        Option::None => Option::None,
    }
}

/// Computes the bounce normal for a circular ball against an object.
pub fn ball_bounce<A: Shape, B: Shape>(ball: &A, ball_direction: Vector, object: &B) -> (r:
    Option<Vector>)
    requires
        ball.wf(),
        object.wf(),
        ball_direction.wf(),
        ball.type_spec() == ShapeType::Circle,
        object.contact_point_pre(ball.center_spec(), ball_direction),
        object.contact_point_spec(ball.center_spec(), ball_direction) matches Some(p)
            ==> object.normal_at_pre(p),
    ensures
        r == ball_bounce_spec(*ball, ball_direction, *object),
{
    let contact = object.contact_point(ball.center(), ball_direction);
    if let Some(point) = contact {
        object.get_normal_vector_at(point)
    } else {
        None
    }
}

} // verus!
