//! Displacements and directions on the plane, in fixed-point counts.
//!
//! A direction ("unit") vector is scaled by 1000: the unit vector along the
//! positive x axis is `(1000, 0)`.

use crate::base::angle::{acos_bracket, acos_milli, cos_spec, sin_spec, wrap_spec, Angle};
use crate::base::point::Point;
use crate::base::scale::Scale;
use crate::base::size::Size;
use crate::num::{
    floor_div, iabs, is_sqrt_floor, isqrt, lemma_div_bounded, lemma_div_magnitude,
    lemma_mul_bounds, lemma_sq_nonneg, lemma_sq_pos, lemma_sqrt_below, mul64, sq, sqrt_floor,
    COORD_LIMIT,
};
use vstd::prelude::*;

verus! {

/// A displacement; one unit is 1000 counts on each axis. Differences of
/// representable points fit, so a vector component may be twice as large as
/// a coordinate.
#[derive(Clone, Copy, Debug, PartialEq, Eq, Structural)]
pub struct Vector {
    pub dx: i64,
    pub dy: i64,
}

/// Squared magnitude of a vector.
pub open spec fn norm2(v: Vector) -> int {
    sq(v.dx as int) + sq(v.dy as int)
}

/// Dot product of two vectors.
pub open spec fn dot_spec(a: Vector, b: Vector) -> int {
    a.dx * b.dx + a.dy * b.dy
}

/// Z component of the cross product of two vectors.
pub open spec fn cross_spec(a: Vector, b: Vector) -> int {
    a.dx * b.dy - a.dy * b.dx
}

/// X component of `(dx, dy)` rotated by the angle whose scaled cosine and
/// sine are `c` and `s`, rounded down.
pub open spec fn rot_x(dx: int, dy: int, c: int, s: int) -> int {
    (dx * c - dy * s) / 1000
}

/// Y component of `(dx, dy)` rotated by the angle whose scaled cosine and
/// sine are `c` and `s`, rounded down.
pub open spec fn rot_y(dx: int, dy: int, c: int, s: int) -> int {
    (dx * s + dy * c) / 1000
}

/// The clamped fixed-point cosine of the angle between a vector and the
/// positive x axis.
pub open spec fn axis_cosine(v: Vector) -> int {
    let q = v.dx * 1000 / (sqrt_floor(norm2(v) as nat) as int);
    if q < -1000 {
        -1000
    } else if q > 1000 {
        1000
    } else {
        q
    }
}

/// The direction vector of `v`, scaled by 1000: each component is divided
/// by the rounded-down magnitude.
pub open spec fn unit_spec(v: Vector) -> Vector {
    let m = sqrt_floor(norm2(v) as nat) as int;
    Vector { dx: (v.dx * 1000 / m) as i64, dy: (v.dy * 1000 / m) as i64 }
}

/// The squared magnitude of a well-formed vector is nonnegative and fits
/// below the square-root cap.
pub proof fn lemma_norm2_bounds(v: Vector)
    requires
        v.wide(),
    ensures
        0 <= norm2(v) <= 144115188075855872,
        v.wf() ==> norm2(v) <= 2251799813685248,
{
    lemma_sq_nonneg(v.dx as int);
    lemma_sq_nonneg(v.dy as int);
    lemma_mul_bounds(v.dx as int, 268435456, v.dx as int, 268435456);
    lemma_mul_bounds(v.dy as int, 268435456, v.dy as int, 268435456);
    if v.wf() {
        lemma_mul_bounds(v.dx as int, 33554432, v.dx as int, 33554432);
        lemma_mul_bounds(v.dy as int, 33554432, v.dy as int, 33554432);
    }
}

/// Applies the fixed-point rotation matrix to a pair of components.
pub fn rotate_coords(dx: i64, dy: i64, c: i64, s: i64) -> (r: (i64, i64))
    requires
        iabs(dx as int) <= 2 * COORD_LIMIT,
        iabs(dy as int) <= 2 * COORD_LIMIT,
        iabs(c as int) <= 1000,
        iabs(s as int) <= 1000,
    ensures
        r.0 == rot_x(dx as int, dy as int, c as int, s as int),
        r.1 == rot_y(dx as int, dy as int, c as int, s as int),
        iabs(r.0 as int) <= 4 * COORD_LIMIT,
        iabs(r.1 as int) <= 4 * COORD_LIMIT,
{
    let xc = mul64(dx, c);
    let ys = mul64(dy, s);
    let xs = mul64(dx, s);
    let yc = mul64(dy, c);
    proof {
        lemma_mul_bounds(dx as int, 33554432, c as int, 1000);
        lemma_mul_bounds(dy as int, 33554432, s as int, 1000);
        lemma_mul_bounds(dx as int, 33554432, s as int, 1000);
        lemma_mul_bounds(dy as int, 33554432, c as int, 1000);
        lemma_div_bounded(dx * c - dy * s, 4 * COORD_LIMIT as int, 1000);
        lemma_div_bounded(dx * s + dy * c, 4 * COORD_LIMIT as int, 1000);
    }
    let rx = floor_div((xc - ys) as i128, 1000);
    let ry = floor_div((xs + yc) as i128, 1000);
    (rx as i64, ry as i64)
}

impl Vector {
    /// Both components fit the doubled coordinate range.
    pub open spec fn wf(&self) -> bool {
        iabs(self.dx as int) <= 2 * COORD_LIMIT && iabs(self.dy as int) <= 2 * COORD_LIMIT
    }

    /// Both components fit the doubled wider range: differences of derived
    /// points fit.
    pub open spec fn wide(&self) -> bool {
        iabs(self.dx as int) <= 268435456 && iabs(self.dy as int) <= 268435456
    }

    /// The vector with the given components.
    pub fn new(dx: i64, dy: i64) -> (r: Vector)
        ensures
            r == (Vector { dx, dy }),
    {
        Vector { dx, dy }
    }

    /// The zero displacement.
    pub fn zero() -> (r: Vector)
        ensures
            r == (Vector { dx: 0, dy: 0 }),
    {
        Vector { dx: 0, dy: 0 }
    }

    /// The displacement from one point to another.
    pub fn from_points(point_a: Point, point_b: Point) -> (r: Vector)
        requires
            point_a.wf(),
            point_b.wf(),
        ensures
            r.dx == point_b.x - point_a.x,
            r.dy == point_b.y - point_a.y,
            r.wf(),
    {
        Vector { dx: point_b.x - point_a.x, dy: point_b.y - point_a.y }
    }

    /// The vector of the given magnitude along the given direction.
    pub fn from_magnitude(magnitude: i64, orientation: Angle) -> (r: Vector)
        requires
            0 <= magnitude <= 2 * COORD_LIMIT,
            orientation.wf(),
        ensures
            r.dx == magnitude * cos_spec(orientation.mdeg as int) / 1000,
            r.dy == magnitude * sin_spec(orientation.mdeg as int) / 1000,
            r.wf(),
    {
        let c = orientation.cos();
        let s = orientation.sin();
        proof {
            lemma_mul_bounds(magnitude as int, 33554432, c as int, 1000);
            lemma_mul_bounds(magnitude as int, 33554432, s as int, 1000);
            lemma_div_bounded(magnitude * c, 2 * COORD_LIMIT as int, 1000);
            lemma_div_bounded(magnitude * s, 2 * COORD_LIMIT as int, 1000);
        }
        let dx = floor_div(mul64(magnitude, c) as i128, 1000);
        let dy = floor_div(mul64(magnitude, s) as i128, 1000);
        Vector { dx: dx as i64, dy: dy as i64 }
    }

    /// The direction vector (scaled by 1000) of the given angle.
    pub fn from_orientation(orientation: Angle) -> (r: Vector)
        requires
            orientation.wf(),
        ensures
            r.dx == cos_spec(orientation.mdeg as int),
            r.dy == sin_spec(orientation.mdeg as int),
            r.wf(),
    {
        Vector { dx: orientation.cos(), dy: orientation.sin() }
    }

    /// Rescales the vector in place to the direction vector of its own
    /// orientation.
    pub fn normalize(&mut self)
        requires
            old(self).wide(),
            old(self).dx != 0 || old(self).dy != 0,
        ensures
            *final(self) == unit_spec(*old(self)),
    {
        let u = self.get_unit_vector();
        self.dx = u.dx;
        self.dy = u.dy;
    }

    /// The direction vector (scaled by 1000) of this vector.
    pub fn get_unit_vector(self) -> (r: Vector)
        requires
            self.wide(),
            self.dx != 0 || self.dy != 0,
        ensures
            r == unit_spec(self),
            iabs(r.dx as int) <= 1000,
            iabs(r.dy as int) <= 1000,
            r.wf(),
    {
        let m = self.magnitude();
        proof {
            if self.dx != 0 {
                lemma_sq_pos(self.dx as int);
            } else {
                lemma_sq_pos(self.dy as int);
            }
            lemma_sq_nonneg(self.dx as int);
            lemma_sq_nonneg(self.dy as int);
            assert(m as int >= 1) by (nonlinear_arith)
                requires
                    norm2(self) >= 1,
                    m as int >= 0,
                    norm2(self) < (m as int + 1) * (m as int + 1),
            ;
            lemma_unit_component(self.dx as int, m as int, norm2(self));
            lemma_unit_component(self.dy as int, m as int, norm2(self));
        }
        let ux = floor_div(self.dx as i128 * 1000, m as i128);
        let uy = floor_div(self.dy as i128 * 1000, m as i128);
        Vector { dx: ux as i64, dy: uy as i64 }
    }

    /// Rotates the vector in place.
    pub fn rotate(&mut self, phi: Angle)
        requires
            old(self).wf(),
            phi.wf(),
        ensures
            *final(self) == old(self).rotated(phi),
    {
        let c = phi.cos();
        let s = phi.sin();
        let (rx, ry) = rotate_coords(self.dx, self.dy, c, s);
        self.dx = rx;
        self.dy = ry;
    }

    /// The vector after rotation.
    pub open spec fn rotated(&self, phi: Angle) -> Vector {
        let c = cos_spec(phi.mdeg as int);
        let s = sin_spec(phi.mdeg as int);
        Vector {
            dx: rot_x(self.dx as int, self.dy as int, c, s) as i64,
            dy: rot_y(self.dx as int, self.dy as int, c, s) as i64,
        }
    }

    /// Dot product; exact.
    pub fn dot(self, other: Vector) -> (r: i64)
        requires
            self.wf(),
            other.wf(),
        ensures
            r == dot_spec(self, other),
            iabs(r as int) <= 2251799813685248,
    {
        proof {
            lemma_mul_bounds(self.dx as int, 33554432, other.dx as int, 33554432);
            lemma_mul_bounds(self.dy as int, 33554432, other.dy as int, 33554432);
        }
        mul64(self.dx, other.dx) + mul64(self.dy, other.dy)
    }

    /// Z component of the cross product; exact.
    pub fn cross(self, other: Vector) -> (r: i64)
        requires
            self.wf(),
            other.wf(),
        ensures
            r == cross_spec(self, other),
            iabs(r as int) <= 2251799813685248,
    {
        proof {
            lemma_mul_bounds(self.dx as int, 33554432, other.dy as int, 33554432);
            lemma_mul_bounds(self.dy as int, 33554432, other.dx as int, 33554432);
        }
        mul64(self.dx, other.dy) - mul64(self.dy, other.dx)
    }

    /// Magnitude, rounded down.
    pub fn magnitude(&self) -> (r: i64)
        requires
            self.wide(),
        ensures
            r == sqrt_floor(norm2(*self) as nat),
            is_sqrt_floor(norm2(*self), r as int),
            0 <= r <= 402653184,
            self.wf() ==> r <= 3 * COORD_LIMIT,
    {
        proof {
            lemma_norm2_bounds(*self);
        }
        let d2 = self.squared_magnitude();
        let r = isqrt(d2 as i128);
        proof {
            lemma_sqrt_below(d2 as int, r as int, 402653184);
            if self.wf() {
                lemma_sqrt_below(d2 as int, r as int, 50331648);
            }
        }
        r as i64
    }

    /// Squared magnitude; exact.
    pub fn squared_magnitude(&self) -> (r: i64)
        requires
            self.wide(),
        ensures
            r == norm2(*self),
            0 <= r <= 144115188075855872,
            self.wf() ==> r <= 2251799813685248,
    {
        proof {
            lemma_norm2_bounds(*self);
        }
        mul64(self.dx, self.dx) + mul64(self.dy, self.dy)
    }

    /// The angle from the positive x axis to this vector: the rounded-down
    /// arc cosine of the clamped axis cosine, reflected below the axis.
    pub fn orientation(&self) -> (r: Angle)
        requires
            self.wf(),
            self.dx != 0 || self.dy != 0,
        ensures
            r.wf(),
            exists|ac: int|
                #[trigger] acos_bracket(axis_cosine(*self), ac) && r.mdeg == if self.dy >= 0 {
                    ac
                } else {
                    wrap_spec(-ac)
                },
    {
        let m = self.magnitude();
        proof {
            if self.dx != 0 {
                lemma_sq_pos(self.dx as int);
            } else {
                lemma_sq_pos(self.dy as int);
            }
            lemma_sq_nonneg(self.dx as int);
            lemma_sq_nonneg(self.dy as int);
            assert(m as int >= 1) by (nonlinear_arith)
                requires
                    norm2(*self) >= 1,
                    m as int >= 0,
                    norm2(*self) < (m as int + 1) * (m as int + 1),
            ;
        }
        let q = floor_div(self.dx as i128 * 1000, m as i128);
        let c = if q < -1000 {
            -1000
        } else if q > 1000 {
            1000
        } else {
            q as i64
        };
        let ac = acos_milli(c);
        let r = if self.dy >= 0 {
            Angle { mdeg: ac }
        } else {
            Angle::new(-ac)
        };
        proof {
            assert(acos_bracket(axis_cosine(*self), ac as int));
        }
        r
    }

    /// The perpendicular vector, a quarter turn counterclockwise.
    pub fn get_normal_vector(&self) -> (r: Vector)
        requires
            self.wf(),
        ensures
            r.dx == -self.dy,
            r.dy == self.dx,
            r.wf(),
    {
        Vector { dx: -self.dy, dy: self.dx }
    }

    /// The point this displacement reaches from the origin.
    pub fn to_point(self) -> (r: Point)
        ensures
            r == (Point { x: self.dx, y: self.dy }),
    {
        Point { x: self.dx, y: self.dy }
    }

    /// The components read as a width and a height.
    pub fn to_size(self) -> (r: Size)
        ensures
            r == (Size { w: self.dx, h: self.dy }),
    {
        Size { w: self.dx, h: self.dy }
    }

    /// The components read as per-axis scale factors.
    pub fn to_scale(self) -> (r: Scale)
        ensures
            r == (Scale { sx: self.dx, sy: self.dy }),
    {
        Scale { sx: self.dx, sy: self.dy }
    }

    /// Componentwise sum.
    pub fn add(self, other: Vector) -> (r: Vector)
        requires
            self.wf(),
            other.wf(),
        ensures
            r.dx == self.dx + other.dx,
            r.dy == self.dy + other.dy,
    {
        Vector { dx: self.dx + other.dx, dy: self.dy + other.dy }
    }

    /// Componentwise difference.
    pub fn sub(self, other: Vector) -> (r: Vector)
        requires
            self.wf(),
            other.wf(),
        ensures
            r.dx == self.dx - other.dx,
            r.dy == self.dy - other.dy,
    {
        Vector { dx: self.dx - other.dx, dy: self.dy - other.dy }
    }

    /// The opposite displacement.
    pub fn neg(self) -> (r: Vector)
        requires
            self.wf(),
        ensures
            r.dx == -self.dx,
            r.dy == -self.dy,
            r.wf(),
    {
        Vector { dx: -self.dx, dy: -self.dy }
    }

    /// Both components divided by a factor in thousandths, rounded toward
    /// negative infinity.
    pub fn div_milli(self, k: i64) -> (r: Vector)
        requires
            self.wf(),
            k != 0,
            iabs(k as int) <= 4 * COORD_LIMIT,
        ensures
            r.dx == crate::num::fdiv(self.dx * 1000, k as int),
            r.dy == crate::num::fdiv(self.dy * 1000, k as int),
    {
        let wx = crate::num::floor_div_signed(mul64(self.dx, 1000) as i128, k as i128);
        let wy = crate::num::floor_div_signed(mul64(self.dy, 1000) as i128, k as i128);
        Vector { dx: wx as i64, dy: wy as i64 }
    }

    /// Both components scaled by a factor in thousandths, rounded down.
    pub fn mul_milli(self, k: i64) -> (r: Vector)
        requires
            self.wf(),
            iabs(k as int) <= 4 * COORD_LIMIT,
        ensures
            r.dx == self.dx * k / 1000,
            r.dy == self.dy * k / 1000,
    {
        let wx = floor_div(mul64(self.dx, k) as i128, 1000);
        let wy = floor_div(mul64(self.dy, k) as i128, 1000);
        proof {
            lemma_div_magnitude(self.dx * k, 1000);
            lemma_div_magnitude(self.dy * k, 1000);
        }
        Vector { dx: wx as i64, dy: wy as i64 }
    }
}

/// A component divided by a magnitude at least its own size stays within
/// the direction-vector scale.
proof fn lemma_unit_component(d: int, m: int, n: int)
    requires
        m >= 1,
        sq(d) <= n,
        n < (m + 1) * (m + 1),
    ensures
        -1000 <= d * 1000 / m <= 1000,
{
    assert(-m <= d <= m) by (nonlinear_arith)
        requires
            d * d <= n,
            n < (m + 1) * (m + 1),
            m >= 1,
    ;
    assert(-1000 * m <= d * 1000 <= 1000 * m) by (nonlinear_arith)
        requires
            -m <= d <= m,
            m >= 1,
    ;
    lemma_div_bounded(d * 1000, 1000, m);
}

} // verus!
