//! Regular hexagons: a center, a side length, and an orientation angle.

use crate::base::angle::{cos_spec, sin_spec, wrap_spec, Angle};
use crate::base::point::Point;
use crate::base::vector::Vector;
use crate::collision::bounding_box::BoundingBox;
use crate::num::{floor_div, in_range, lemma_div_bounded, lemma_mul_bounds, mul64, COORD_LIMIT};
use crate::shape::polygon::{
    best_boundary_upto, crossings_list, edges_nondegenerate, poly_bbox, Polygon,
};
use crate::shape::shape::{
    contact_segment, normal_at_from, poly_contact_spec, polygon_contact_point, polygon_normal_at,
    Shape, ShapeType,
};
use vstd::prelude::*;

verus! {

/// A regular hexagon: a center, a side length, and an orientation. At zero
/// orientation the hexagon is flat-topped; a quarter turn makes it
/// pointy-topped.
#[derive(Clone, Copy, Debug, PartialEq, Eq, Structural)]
pub struct Hexagon {
    pub center: Point,
    pub side: i64,
    pub phi: Angle,
}

/// The `i`-th hexagon vertex: on the circumscribed circle of radius `side`,
/// a sixth of a turn past the previous one.
pub open spec fn hex_vertex(center: Point, side: int, phi: Angle, i: int) -> Point {
    let ang = wrap_spec(phi.mdeg + i * 60000);
    Point {
        x: (center.x + side * cos_spec(ang) / 1000) as i64,
        y: (center.y + side * sin_spec(ang) / 1000) as i64,
    }
}

/// The six vertices of a hexagon.
pub open spec fn hex_vertices(center: Point, side: int, phi: Angle) -> Seq<Point> {
    Seq::new(6, |i: int| hex_vertex(center, side, phi, i))
}

/// Translating a hexagon by a displacement and then by its opposite
/// restores it exactly.
pub proof fn lemma_hexagon_translate_inverse(h: Hexagon, v: Vector)
    requires
        h.wf(),
        v.wf(),
    ensures
        h.translated(v).translated(Vector { dx: (-v.dx) as i64, dy: (-v.dy) as i64 }) == h,
{
}

impl Hexagon {
    /// The side is a nonnegative representable count, the orientation
    /// canonical, and the vertices stay within the coordinate range.
    pub open spec fn wf(&self) -> bool {
        &&& 0 <= self.side <= COORD_LIMIT
        &&& self.phi.wf()
        &&& in_range(self.center.x - self.side)
        &&& in_range(self.center.x + self.side)
        &&& in_range(self.center.y - self.side)
        &&& in_range(self.center.y + self.side)
    }

    /// The hexagon with the given center, side length and orientation.
    pub fn new(center: Point, side: i64, phi: Angle) -> (r: Hexagon)
        ensures
            r == (Hexagon { center, side, phi }),
    {
        Hexagon { center, side, phi }
    }
}

impl Shape for Hexagon {
    open spec fn wf(&self) -> bool {
        Hexagon::wf(self)
    }

    open spec fn type_spec(&self) -> ShapeType {
        ShapeType::Hexagon
    }

    open spec fn center_spec(&self) -> Point {
        self.center
    }

    open spec fn enclosing_radius_spec(&self) -> int {
        self.side as int
    }

    open spec fn polygon_spec(&self) -> Seq<Point> {
        hex_vertices(self.center, self.side as int, self.phi)
    }

    open spec fn bounding_box_spec(&self) -> BoundingBox {
        poly_bbox(hex_vertices(self.center, self.side as int, self.phi))
    }

    open spec fn closest_point_spec(&self, point: Point) -> Point {
        best_boundary_upto(self.polygon_spec(), point, 6)
    }

    open spec fn closest_point_pre(&self, point: Point) -> bool {
        edges_nondegenerate(self.polygon_spec())
    }

    open spec fn contact_point_spec(&self, origin: Point, direction: Vector) -> Option<Point> {
        poly_contact_spec(self.polygon_spec(), self.center, self.side as int, origin, direction)
    }

    open spec fn contact_point_pre(&self, origin: Point, direction: Vector) -> bool {
        &&& (direction.dx != 0 || direction.dy != 0)
        &&& crossings_list(
            contact_segment(self.center, self.side as int, origin, direction),
            self.polygon_spec(),
            6,
        ).len() <= 2
    }

    open spec fn normal_at_spec(&self, point: Point) -> Option<Vector> {
        normal_at_from(self.polygon_spec(), point, 0)
    }

    open spec fn normal_at_pre(&self, point: Point) -> bool {
        edges_nondegenerate(self.polygon_spec())
    }

    open spec fn translated(&self, vector: Vector) -> Hexagon {
        Hexagon {
            center: Point {
                x: (self.center.x + vector.dx) as i64,
                y: (self.center.y + vector.dy) as i64,
            },
            ..*self
        }
    }

    open spec fn moved_to(&self, point: Point) -> Hexagon {
        Hexagon { center: point, ..*self }
    }

    open spec fn rotated(&self, theta: Angle) -> Hexagon {
        Hexagon {
            phi: Angle { mdeg: wrap_spec(self.phi.mdeg + theta.mdeg) as i64 },
            ..*self
        }
    }

    open spec fn rotated_to(&self, phi: Angle) -> Hexagon {
        Hexagon { phi, ..*self }
    }

    open spec fn rotated_about(&self, point: Point, theta: Angle) -> Hexagon {
        Hexagon {
            center: self.center.rotated_about(point, theta),
            phi: Angle { mdeg: wrap_spec(self.phi.mdeg + theta.mdeg) as i64 },
            ..*self
        }
    }

    fn get_type(&self) -> (t: ShapeType) {
        ShapeType::Hexagon
    }

    fn center(&self) -> (c: Point) {
        self.center
    }

    fn enclosing_radius(&self) -> (r: i64) {
        self.side
    }

    fn translate(&mut self, vector: Vector) {
        self.center = self.center.add_vector(vector);
    }

    fn move_to(&mut self, point: Point) {
        self.center = point;
    }

    fn rotate(&mut self, theta: Angle) {
        self.phi = self.phi.add(theta);
    }

    fn rotate_to(&mut self, phi: Angle) {
        self.phi = phi;
    }

    fn rotate_about(&mut self, point: Point, theta: Angle) {
        self.center.rotate_about(point, theta);
        self.phi = self.phi.add(theta);
    }

    fn polygon(&self) -> (p: Polygon) {
        let mut vertices: Vec<Point> = Vec::new();
        let mut i: usize = 0;
        while i < 6
            invariant
                i <= 6,
                Hexagon::wf(self),
                vertices@.len() == i,
                forall|j: int|
                    0 <= j < i ==> vertices@[j] == hex_vertex(
                        self.center,
                        self.side as int,
                        self.phi,
                        j,
                    ),
                forall|j: int| 0 <= j < i ==> (#[trigger] vertices@[j]).wf(),
            decreases 6 - i,
        {
            let ang = Angle::new(self.phi.mdeg + (i as i64) * 60000);
            let cv = ang.cos();
            let sv = ang.sin();
            proof {
                lemma_mul_bounds(self.side as int, self.side as int, cv as int, 1000);
                lemma_mul_bounds(self.side as int, self.side as int, sv as int, 1000);
                lemma_div_bounded(self.side * cv, self.side as int, 1000);
                lemma_div_bounded(self.side * sv, self.side as int, 1000);
            }
            let ox = floor_div(mul64(self.side, cv) as i128, 1000);
            let oy = floor_div(mul64(self.side, sv) as i128, 1000);
            vertices.push(Point { x: self.center.x + ox as i64, y: self.center.y + oy as i64 });
            i += 1;
        }
        proof {
            assert(vertices@ =~= hex_vertices(self.center, self.side as int, self.phi));
        }
        Polygon { vertices }
    }

    fn bounding_box(&self) -> (b: BoundingBox) {
        let poly = self.polygon();
        poly.to_bounding_box()
    }

    fn closest_point(&self, point: Point) -> (r: Point) {
        let poly = self.polygon();
        poly.closest_point(point)
    }

    fn contact_point(&self, origin: Point, direction: Vector) -> (r: Option<Point>) {
        let poly = self.polygon();
        polygon_contact_point(&poly, self.center, self.side, origin, direction)
    }

    fn get_normal_vector_at(&self, point: Point) -> (r: Option<Vector>) {
        let poly = self.polygon();
        polygon_normal_at(&poly, point)
    }
}

} // verus!
