//! Oriented rectangles: a center, a size, and an orientation angle.

use crate::base::angle::{cos_spec, sin_spec, wrap_spec, Angle};
use crate::base::point::Point;
use crate::base::scale::Scale;
use crate::base::size::Size;
use crate::base::vector::Vector;
use crate::collision::bounding_box::BoundingBox;
use crate::num::{
    ceil_sqrt, floor_div, in_range, lemma_div_bounded, lemma_div_magnitude, lemma_mul_bounds,
    lemma_sq_nonneg, lemma_sqrt_below, mul64, sqrt_ceil, COORD_LIMIT,
};
use crate::shape::polygon::{edges_nondegenerate, poly_bbox, Polygon};
use crate::shape::shape::{
    contact_segment, normal_at_from, poly_contact_spec, polygon_contact_point, polygon_normal_at,
    Shape, ShapeType,
};
use crate::shape::polygon::{best_boundary_upto, crossings_list};
use vstd::prelude::*;

verus! {

/// A rectangle: a center, a width-and-height size, and an orientation.
#[derive(Clone, Copy, Debug, PartialEq, Eq, Structural)]
pub struct Rectangle {
    pub center: Point,
    pub size: Size,
    pub phi: Angle,
}

/// The four corners of an oriented rectangle, from half-extents turned by
/// the orientation, in a fixed winding the narrow phase relies on.
pub open spec fn rect_vertices(center: Point, size: Size, phi: Angle) -> Seq<Point> {
    let hw = size.w as int / 2;
    let hh = size.h as int / 2;
    let c = cos_spec(phi.mdeg as int);
    let s = sin_spec(phi.mdeg as int);
    let wc = hw * c / 1000;
    let ws = hw * s / 1000;
    let hc = hh * c / 1000;
    let hs = hh * s / 1000;
    seq![
        Point { x: (center.x - wc + hs) as i64, y: (center.y - ws - hc) as i64 },
        Point { x: (center.x + wc + hs) as i64, y: (center.y + ws - hc) as i64 },
        Point { x: (center.x + wc - hs) as i64, y: (center.y + ws + hc) as i64 },
        Point { x: (center.x - wc - hs) as i64, y: (center.y - ws + hc) as i64 },
    ]
}

/// The polygon view of a rectangle has exactly four vertices, and their
/// centroid is the rectangle's center, exactly, whatever the orientation:
/// the four turned half-extent offsets cancel in pairs.
pub proof fn lemma_rect_polygon_centroid(center: Point, size: Size, phi: Angle)
    requires
        (Rectangle { center, size, phi }).wf(),
    ensures
        rect_vertices(center, size, phi).len() == 4,
        (rect_vertices(center, size, phi)[0].x + rect_vertices(center, size, phi)[1].x
            + rect_vertices(center, size, phi)[2].x + rect_vertices(center, size, phi)[3].x) / 4
            == center.x,
        (rect_vertices(center, size, phi)[0].y + rect_vertices(center, size, phi)[1].y
            + rect_vertices(center, size, phi)[2].y + rect_vertices(center, size, phi)[3].y) / 4
            == center.y,
{
    let hw = size.w as int / 2;
    let hh = size.h as int / 2;
    let c = cos_spec(phi.mdeg as int);
    let s = sin_spec(phi.mdeg as int);
    crate::base::angle::lemma_cos_range(phi.mdeg as int);
    crate::base::angle::lemma_sin_range(phi.mdeg as int);
    lemma_div_magnitude(size.w as int, 2);
    lemma_div_magnitude(size.h as int, 2);
    lemma_mul_bounds(hw, hw, c, 1000);
    lemma_mul_bounds(hw, hw, s, 1000);
    lemma_mul_bounds(hh, hh, c, 1000);
    lemma_mul_bounds(hh, hh, s, 1000);
    lemma_div_bounded(hw * c, hw, 1000);
    lemma_div_bounded(hw * s, hw, 1000);
    lemma_div_bounded(hh * c, hh, 1000);
    lemma_div_bounded(hh * s, hh, 1000);
    vstd::arithmetic::div_mod::lemma_div_multiples_vanish(center.x as int, 4);
    vstd::arithmetic::div_mod::lemma_div_multiples_vanish(center.y as int, 4);
    assert(4 * (center.x as int) == (center.x as int) * 4) by (nonlinear_arith);
    assert(4 * (center.y as int) == (center.y as int) * 4) by (nonlinear_arith);
}

/// Translating a rectangle by a displacement and then by its opposite
/// restores it exactly.
pub proof fn lemma_rect_translate_inverse(r: Rectangle, v: Vector)
    requires
        r.wf(),
        v.wf(),
    ensures
        r.translated(v).translated(Vector { dx: (-v.dx) as i64, dy: (-v.dy) as i64 }) == r,
{
}

impl Rectangle {
    /// The size is representable, the orientation canonical, and the
    /// corners stay within the coordinate range wherever the rectangle
    /// turns.
    pub open spec fn wf(&self) -> bool {
        &&& self.size.wf()
        &&& self.phi.wf()
        &&& in_range(self.center.x - self.size.w - self.size.h)
        &&& in_range(self.center.x + self.size.w + self.size.h)
        &&& in_range(self.center.y - self.size.w - self.size.h)
        &&& in_range(self.center.y + self.size.w + self.size.h)
    }

    /// The rectangle with the given center, size and orientation.
    pub fn new(center: Point, size: Size, phi: Angle) -> (r: Rectangle)
        ensures
            r == (Rectangle { center, size, phi }),
    {
        Rectangle { center, size, phi }
    }

    /// The size.
    pub fn size(&self) -> (r: Size)
        ensures
            r == self.size,
    {
        self.size
    }

    /// The orientation.
    pub fn orientation(&self) -> (r: Angle)
        ensures
            r == self.phi,
    {
        self.phi
    }

    /// The rectangle with its size stretched by per-axis factors.
    pub open spec fn resized(&self, scale: Scale) -> Rectangle {
        Rectangle {
            size: Size {
                w: (self.size.w * scale.sx / 1000) as i64,
                h: (self.size.h * scale.sy / 1000) as i64,
            },
            ..*self
        }
    }

    /// Stretches the size in place by per-axis factors in thousandths.
    pub fn resize(&mut self, scale: Scale)
        requires
            old(self).wf(),
            scale.wf(),
            0 <= scale.sx,
            0 <= scale.sy,
            old(self).resized(scale).wf(),
        ensures
            *final(self) == old(self).resized(scale),
    {
        self.size = self.size.mul_scale(scale);
    }

    /// Replaces the size in place.
    pub fn resize_to(&mut self, size: Size)
        requires
            old(self).wf(),
            (Rectangle { size, ..*old(self) }).wf(),
        ensures
            *final(self) == (Rectangle { size, ..*old(self) }),
    {
        self.size = size;
    }
}

impl Shape for Rectangle {
    open spec fn wf(&self) -> bool {
        Rectangle::wf(self)
    }

    open spec fn type_spec(&self) -> ShapeType {
        ShapeType::Rectangle
    }

    open spec fn center_spec(&self) -> Point {
        self.center
    }

    open spec fn enclosing_radius_spec(&self) -> int {
        sqrt_ceil(
            ((self.size.w as int / 2) * (self.size.w as int / 2) + (self.size.h as int / 2) * (
            self.size.h as int / 2)) as nat,
        ) as int
    }

    open spec fn polygon_spec(&self) -> Seq<Point> {
        rect_vertices(self.center, self.size, self.phi)
    }

    open spec fn bounding_box_spec(&self) -> BoundingBox {
        poly_bbox(rect_vertices(self.center, self.size, self.phi))
    }

    open spec fn closest_point_spec(&self, point: Point) -> Point {
        best_boundary_upto(self.polygon_spec(), point, 4)
    }

    open spec fn closest_point_pre(&self, point: Point) -> bool {
        edges_nondegenerate(self.polygon_spec())
    }

    open spec fn contact_point_spec(&self, origin: Point, direction: Vector) -> Option<Point> {
        poly_contact_spec(
            self.polygon_spec(),
            self.center,
            self.enclosing_radius_spec(),
            origin,
            direction,
        )
    }

    open spec fn contact_point_pre(&self, origin: Point, direction: Vector) -> bool {
        &&& (direction.dx != 0 || direction.dy != 0)
        &&& crossings_list(
            contact_segment(self.center, self.enclosing_radius_spec(), origin, direction),
            self.polygon_spec(),
            4,
        ).len() <= 2
    }

    open spec fn normal_at_spec(&self, point: Point) -> Option<Vector> {
        normal_at_from(self.polygon_spec(), point, 0)
    }

    open spec fn normal_at_pre(&self, point: Point) -> bool {
        edges_nondegenerate(self.polygon_spec())
    }

    open spec fn translated(&self, vector: Vector) -> Rectangle {
        Rectangle {
            center: Point {
                x: (self.center.x + vector.dx) as i64,
                y: (self.center.y + vector.dy) as i64,
            },
            ..*self
        }
    }

    open spec fn moved_to(&self, point: Point) -> Rectangle {
        Rectangle { center: point, ..*self }
    }

    open spec fn rotated(&self, theta: Angle) -> Rectangle {
        Rectangle {
            phi: Angle { mdeg: wrap_spec(self.phi.mdeg + theta.mdeg) as i64 },
            ..*self
        }
    }

    open spec fn rotated_to(&self, phi: Angle) -> Rectangle {
        Rectangle { phi, ..*self }
    }

    open spec fn rotated_about(&self, point: Point, theta: Angle) -> Rectangle {
        Rectangle {
            center: self.center.rotated_about(point, theta),
            phi: Angle { mdeg: wrap_spec(self.phi.mdeg + theta.mdeg) as i64 },
            ..*self
        }
    }

    fn get_type(&self) -> (t: ShapeType) {
        ShapeType::Rectangle
    }

    fn center(&self) -> (c: Point) {
        self.center
    }

    fn enclosing_radius(&self) -> (r: i64) {
        let hw = self.size.w / 2;
        let hh = self.size.h / 2;
        proof {
            lemma_div_magnitude(self.size.w as int, 2);
            lemma_div_magnitude(self.size.h as int, 2);
            lemma_mul_bounds(hw as int, 8388608, hw as int, 8388608);
            lemma_mul_bounds(hh as int, 8388608, hh as int, 8388608);
            lemma_sq_nonneg(hw as int);
            lemma_sq_nonneg(hh as int);
        }
        let n2 = mul64(hw, hw) + mul64(hh, hh);
        let r = ceil_sqrt(n2 as i128);
        proof {
            if r >= 1 {
                lemma_sqrt_below(n2 as int, r as int - 1, 16777215);
            }
        }
        r as i64
    }

    fn translate(&mut self, vector: Vector) {
        self.center = self.center.add_vector(vector);
    }

    fn move_to(&mut self, point: Point) {
        self.center = point;
    }

    fn rotate(&mut self, theta: Angle) {
        self.phi = self.phi.add(theta);
    }

    fn rotate_to(&mut self, phi: Angle) {
        self.phi = phi;
    }

    fn rotate_about(&mut self, point: Point, theta: Angle) {
        self.center.rotate_about(point, theta);
        self.phi = self.phi.add(theta);
    }

    #[verifier::rlimit(100)]
    fn polygon(&self) -> (p: Polygon) {
        let hw = self.size.w / 2;
        let hh = self.size.h / 2;
        let c = self.phi.cos();
        let s = self.phi.sin();
        proof {
            lemma_div_magnitude(self.size.w as int, 2);
            lemma_div_magnitude(self.size.h as int, 2);
            lemma_mul_bounds(hw as int, hw as int, c as int, 1000);
            lemma_mul_bounds(hw as int, hw as int, s as int, 1000);
            lemma_mul_bounds(hh as int, hh as int, c as int, 1000);
            lemma_mul_bounds(hh as int, hh as int, s as int, 1000);
            lemma_div_bounded(hw * c, hw as int, 1000);
            lemma_div_bounded(hw * s, hw as int, 1000);
            lemma_div_bounded(hh * c, hh as int, 1000);
            lemma_div_bounded(hh * s, hh as int, 1000);
        }
        let wc = floor_div(mul64(hw, c) as i128, 1000) as i64;
        let ws = floor_div(mul64(hw, s) as i128, 1000) as i64;
        let hc = floor_div(mul64(hh, c) as i128, 1000) as i64;
        let hs = floor_div(mul64(hh, s) as i128, 1000) as i64;
        let mut vertices: Vec<Point> = Vec::new();
        vertices.push(Point { x: self.center.x - wc + hs, y: self.center.y - ws - hc });
        vertices.push(Point { x: self.center.x + wc + hs, y: self.center.y + ws - hc });
        vertices.push(Point { x: self.center.x + wc - hs, y: self.center.y + ws + hc });
        vertices.push(Point { x: self.center.x - wc - hs, y: self.center.y - ws + hc });
        proof {
            let spec_vs = rect_vertices(self.center, self.size, self.phi);
            assert(vertices@[0] == spec_vs[0]);
            assert(vertices@[1] == spec_vs[1]);
            assert(vertices@[2] == spec_vs[2]);
            assert(vertices@[3] == spec_vs[3]);
            assert(vertices@ =~= spec_vs);
        }
        Polygon { vertices }
    }

    fn bounding_box(&self) -> (b: BoundingBox) {
        let poly = self.polygon();
        poly.to_bounding_box()
    }

    fn closest_point(&self, point: Point) -> (r: Point) {
        let poly = self.polygon();
        poly.closest_point(point)
    }

    fn contact_point(&self, origin: Point, direction: Vector) -> (r: Option<Point>) {
        let poly = self.polygon();
        let radius = self.enclosing_radius();
        polygon_contact_point(&poly, self.center, radius, origin, direction)
    }

    fn get_normal_vector_at(&self, point: Point) -> (r: Option<Vector>) {
        let poly = self.polygon();
        polygon_normal_at(&poly, point)
    }
}

} // verus!
