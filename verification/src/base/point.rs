//! Absolute positions on the plane, in fixed-point counts.

use crate::base::angle::{cos_spec, sin_spec, Angle};
use crate::base::vector::{rot_x, rot_y, rotate_coords, Vector};
use crate::num::{
    in_range, isqrt, lemma_sq_nonneg, lemma_sqrt_below, mul64, sq, sqrt_floor, COORD_LIMIT,
};
use vstd::prelude::*;

verus! {

/// An absolute position; one unit is 1000 counts on each axis.
#[derive(Clone, Copy, Debug, PartialEq, Eq, Structural)]
pub struct Point {
    pub x: i64,
    pub y: i64,
}

/// Squared Euclidean distance between two points.
pub open spec fn dist2(a: Point, b: Point) -> int {
    sq(b.x - a.x) + sq(b.y - a.y)
}

/// The squared distance of representable points fits below the square-root
/// cap and is nonnegative.
pub proof fn lemma_dist2_bounds(a: Point, b: Point)
    requires
        a.wf(),
        b.wf(),
    ensures
        0 <= dist2(a, b) <= 2251799813685248,
{
    lemma_sq_nonneg(b.x - a.x);
    lemma_sq_nonneg(b.y - a.y);
    crate::num::lemma_mul_bounds(b.x - a.x, 33554432, b.x - a.x, 33554432);
    crate::num::lemma_mul_bounds(b.y - a.y, 33554432, b.y - a.y, 33554432);
}

/// The squared distance of derived points is nonnegative and fits too.
pub proof fn lemma_dist2_wide_bounds(a: Point, b: Point)
    requires
        a.wide(),
        b.wide(),
    ensures
        0 <= dist2(a, b) <= 144115188075855872,
{
    lemma_sq_nonneg(b.x - a.x);
    lemma_sq_nonneg(b.y - a.y);
    crate::num::lemma_mul_bounds(b.x - a.x, 268435456, b.x - a.x, 268435456);
    crate::num::lemma_mul_bounds(b.y - a.y, 268435456, b.y - a.y, 268435456);
}

impl Point {
    /// Both coordinates are representable.
    pub open spec fn wf(&self) -> bool {
        in_range(self.x as int) && in_range(self.y as int)
    }

    /// Both coordinates lie within the wider range of derived points.
    pub open spec fn wide(&self) -> bool {
        crate::num::wide_range(self.x as int) && crate::num::wide_range(self.y as int)
    }

    /// The point with the given coordinates.
    pub fn new(x: i64, y: i64) -> (r: Point)
        ensures
            r == (Point { x, y }),
    {
        Point { x, y }
    }

    /// The origin.
    pub fn zero() -> (r: Point)
        ensures
            r == (Point { x: 0, y: 0 }),
    {
        Point { x: 0, y: 0 }
    }

    /// Squared Euclidean distance to another point; exact.
    pub fn squared_distance_to(&self, other: Point) -> (r: i64)
        requires
            self.wide(),
            other.wide(),
        ensures
            r == dist2(*self, other),
            0 <= r <= 144115188075855872,
            self.wf() && other.wf() ==> r <= 2251799813685248,
    {
        proof {
            lemma_dist2_wide_bounds(*self, other);
            if self.wf() && other.wf() {
                lemma_dist2_bounds(*self, other);
            }
        }
        let dx = mul64(other.x - self.x, other.x - self.x);
        let dy = mul64(other.y - self.y, other.y - self.y);
        dx + dy
    }

    /// Euclidean distance to another point, rounded down.
    pub fn distance_to(&self, other: Point) -> (r: i64)
        requires
            self.wide(),
            other.wide(),
        ensures
            r == sqrt_floor(dist2(*self, other) as nat),
            crate::num::is_sqrt_floor(dist2(*self, other), r as int),
            0 <= r <= 402653184,
            self.wf() && other.wf() ==> r <= 3 * COORD_LIMIT,
    {
        let d2 = self.squared_distance_to(other);
        let r = isqrt(d2 as i128);
        proof {
            lemma_sqrt_below(d2 as int, r as int, 402653184);
            if self.wf() && other.wf() {
                lemma_sqrt_below(d2 as int, r as int, 50331648);
            }
        }
        r as i64
    }

    /// Rotates the point in place about a pivot, by the rotation-matrix
    /// formula in fixed point.
    pub fn rotate_about(&mut self, point: Point, theta: Angle)
        requires
            old(self).wf(),
            point.wf(),
            theta.wf(),
        ensures
            *final(self) == old(self).rotated_about(point, theta),
    {
        let c = theta.cos();
        let s = theta.sin();
        let (rx, ry) = rotate_coords(self.x - point.x, self.y - point.y, c, s);
        self.x = point.x + rx;
        self.y = point.y + ry;
    }

    /// The point after rotation about a pivot.
    pub open spec fn rotated_about(&self, point: Point, theta: Angle) -> Point {
        let dx = self.x - point.x;
        let dy = self.y - point.y;
        let c = cos_spec(theta.mdeg as int);
        let s = sin_spec(theta.mdeg as int);
        Point {
            x: (point.x + rot_x(dx, dy, c, s)) as i64,
            y: (point.y + rot_y(dx, dy, c, s)) as i64,
        }
    }

    /// The displacement of this point from the origin.
    pub fn to_vector(self) -> (r: Vector)
        ensures
            r == (Vector { dx: self.x, dy: self.y }),
    {
        Vector { dx: self.x, dy: self.y }
    }

    /// Componentwise sum of two points.
    pub fn add(self, other: Point) -> (r: Point)
        requires
            self.wf(),
            other.wf(),
        ensures
            r.x == self.x + other.x,
            r.y == self.y + other.y,
    {
        Point { x: self.x + other.x, y: self.y + other.y }
    }

    /// The point displaced by a vector.
    pub fn add_vector(self, v: Vector) -> (r: Point)
        requires
            self.wf(),
            v.wf(),
        ensures
            r.x == self.x + v.dx,
            r.y == self.y + v.dy,
    {
        Point { x: self.x + v.dx, y: self.y + v.dy }
    }

    /// Componentwise difference of two points.
    pub fn sub(self, other: Point) -> (r: Point)
        requires
            self.wf(),
            other.wf(),
        ensures
            r.x == self.x - other.x,
            r.y == self.y - other.y,
    {
        Point { x: self.x - other.x, y: self.y - other.y }
    }

    /// The point displaced against a vector.
    pub fn sub_vector(self, v: Vector) -> (r: Point)
        requires
            self.wf(),
            v.wf(),
        ensures
            r.x == self.x - v.dx,
            r.y == self.y - v.dy,
    {
        Point { x: self.x - v.dx, y: self.y - v.dy }
    }

    /// Both coordinates divided by a factor in thousandths, rounded toward
    /// negative infinity.
    pub fn div_milli(self, k: i64) -> (r: Point)
        requires
            self.wf(),
            k != 0,
            crate::num::iabs(k as int) <= 4 * COORD_LIMIT,
        ensures
            r.x == crate::num::fdiv(self.x * 1000, k as int),
            r.y == crate::num::fdiv(self.y * 1000, k as int),
    {
        let wx = crate::num::floor_div_signed(mul64(self.x, 1000) as i128, k as i128);
        let wy = crate::num::floor_div_signed(mul64(self.y, 1000) as i128, k as i128);
        Point { x: wx as i64, y: wy as i64 }
    }

    /// Both coordinates scaled by a factor in thousandths, rounded down.
    pub fn mul_milli(self, k: i64) -> (r: Point)
        requires
            self.wf(),
            crate::num::iabs(k as int) <= 4 * COORD_LIMIT,
        ensures
            r.x == self.x * k / 1000,
            r.y == self.y * k / 1000,
    {
        let wx = crate::num::floor_div(mul64(self.x, k) as i128, 1000);
        let wy = crate::num::floor_div(mul64(self.y, k) as i128, 1000);
        proof {
            crate::num::lemma_div_magnitude(self.x * k, 1000);
            crate::num::lemma_div_magnitude(self.y * k, 1000);
        }
        Point { x: wx as i64, y: wy as i64 }
    }
}

} // verus!
