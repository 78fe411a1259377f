//! Angles stored in thousandths of a degree, canonicalized into a single
//! turn.
//!
//! Trigonometry is exact fixed-point arithmetic: the sine is the classical
//! rational one-arch approximation `4x(180 - x) / (40500 - x(180 - x))`
//! (degrees, scaled by 1000 and floor-divided), whose worst error against
//! the real sine is below two thousandths. Every trigonometric result is
//! therefore a deterministic integer the contracts pin down exactly.

use crate::base::vector::{dot_spec, norm2, Vector};
use crate::num::{floor_div, mul64, sqrt_floor};
use vstd::arithmetic::div_mod::{
    lemma_add_mod_noop, lemma_div_is_ordered, lemma_div_multiples_vanish,
    lemma_fundamental_div_mod, lemma_fundamental_div_mod_converse, lemma_mod_bound,
};
use vstd::prelude::*;

verus! {

/// Thousandths of a degree in a full turn.
pub const FULL_TURN: i64 = 360000;

/// Thousandths of a degree in half a turn.
pub const HALF_TURN: i64 = 180000;

/// Thousandths of a degree in a quarter turn.
pub const QUARTER_TURN: i64 = 90000;

/// An angle, held in thousandths of a degree within `[0, FULL_TURN)`.
#[derive(Clone, Copy, Debug, PartialEq, Eq, Structural)]
pub struct Angle {
    pub mdeg: i64,
}

/// Any integer count of milli-degrees, brought into `[0, FULL_TURN)`.
pub open spec fn wrap_spec(d: int) -> int {
    d % 360000
}

/// The wrapped value lies in `[0, FULL_TURN)`.
pub proof fn lemma_wrap_range(d: int)
    ensures
        0 <= wrap_spec(d) < 360000,
{
    lemma_mod_bound(d, 360000);
}

/// Sine of `m` milli-degrees for `m` in `[0, HALF_TURN]`, scaled by 1000:
/// the single-arch rational approximation, floor-divided.
pub open spec fn sine_arch(m: int) -> int {
    4000 * (m * (180000 - m)) / (40500000000 - m * (180000 - m))
}

/// Sine of `m` milli-degrees for `m` in `[0, FULL_TURN)`, scaled by 1000.
pub open spec fn sin_spec(m: int) -> int {
    if m <= 180000 {
        sine_arch(m)
    } else {
        -sine_arch(m - 180000)
    }
}

/// Cosine of `m` milli-degrees, scaled by 1000: the sine a quarter turn on.
pub open spec fn cos_spec(m: int) -> int {
    sin_spec(wrap_spec(m + 90000))
}

/// The one-arch sine lies in `[0, 1000]`.
pub proof fn lemma_sine_arch_range(m: int)
    requires
        0 <= m <= 180000,
    ensures
        0 <= sine_arch(m) <= 1000,
{
    assert(m * (180000 - m) == 8100000000 - (m - 90000) * (m - 90000)) by (nonlinear_arith);
    crate::num::lemma_sq_nonneg(m - 90000);
    assert(0 <= m * (180000 - m)) by (nonlinear_arith)
        requires
            0 <= m <= 180000,
    ;
    let p = m * (180000 - m);
    let num = 4000 * p;
    let den = 40500000000 - p;
    lemma_div_is_ordered(0, num, den);
    lemma_div_multiples_vanish(0, den);
    assert(den * 0 == 0);
    lemma_div_is_ordered(num, 1000 * den, den);
    lemma_div_multiples_vanish(1000, den);
    assert(1000 * den == den * 1000) by (nonlinear_arith);
}

/// The scaled sine of any canonical angle lies in `[-1000, 1000]`.
pub proof fn lemma_sin_range(m: int)
    requires
        0 <= m < 360000,
    ensures
        -1000 <= sin_spec(m) <= 1000,
{
    if m <= 180000 {
        lemma_sine_arch_range(m);
    } else {
        lemma_sine_arch_range(m - 180000);
    }
}

/// The scaled cosine of any milli-degree count lies in `[-1000, 1000]`.
pub proof fn lemma_cos_range(m: int)
    ensures
        -1000 <= cos_spec(m) <= 1000,
{
    lemma_wrap_range(m + 90000);
    lemma_sin_range(wrap_spec(m + 90000));
}

/// Brings a milli-degree count into `[0, FULL_TURN)`.
pub fn wrap(mdeg: i64) -> (r: i64)
    ensures
        r == wrap_spec(mdeg as int),
        0 <= r < 360000,
{
    let r0 = mdeg % 360000;
    proof {
        lemma_mod_bound(mdeg as int, 360000);
        if mdeg < 0 {
            let m = -(mdeg as int);
            let q = m / 360000;
            let s = m % 360000;
            lemma_fundamental_div_mod(m, 360000);
            lemma_mod_bound(m, 360000);
            if s == 0 {
                assert(mdeg as int == (-q) * 360000 + 0) by (nonlinear_arith)
                    requires
                        m == 360000 * q + s,
                        s == 0,
                        mdeg as int == -m,
                ;
                lemma_fundamental_div_mod_converse(mdeg as int, 360000, -q, 0);
            } else {
                assert(mdeg as int == (-q - 1) * 360000 + (360000 - s)) by (nonlinear_arith)
                    requires
                        m == 360000 * q + s,
                        mdeg as int == -m,
                ;
                lemma_fundamental_div_mod_converse(mdeg as int, 360000, -q - 1, 360000 - s);
            }
        }
    }
    if r0 < 0 {
        r0 + 360000
    } else {
        r0
    }
}

/// The scaled cosine of the zero angle is exactly one.
pub proof fn lemma_cos_zero()
    ensures
        cos_spec(0) == 1000,
{
    lemma_fundamental_div_mod_converse(90000, 360000, 0, 90000);
    assert(90000 * (180000 - 90000) == 8100000000int) by (nonlinear_arith);
    lemma_fundamental_div_mod_converse(32400000000000, 32400000000, 1000, 0);
}

/// The scaled cosine of half a turn is exactly minus one.
pub proof fn lemma_cos_pi()
    ensures
        cos_spec(180000) == -1000,
{
    lemma_fundamental_div_mod_converse(270000, 360000, 0, 270000);
    assert(90000 * (180000 - 90000) == 8100000000int) by (nonlinear_arith);
    lemma_fundamental_div_mod_converse(32400000000000, 32400000000, 1000, 0);
}

/// `m` is where the decreasing scaled cosine steps below `c` on the first
/// half turn: the rounded-down arc cosine.
pub open spec fn acos_bracket(c: int, m: int) -> bool {
    &&& 0 <= m <= 180000
    &&& cos_spec(m) >= c
    &&& (m == 180000 || cos_spec(m + 1) < c)
}

/// The milli-degree count whose scaled cosine steps below `c`, found by
/// bisection on the exact fixed-point cosine.
pub fn acos_milli(c: i64) -> (r: i64)
    requires
        -1000 <= c <= 1000,
    ensures
        acos_bracket(c as int, r as int),
{
    proof {
        lemma_cos_zero();
        lemma_cos_pi();
    }
    if c <= -1000 {
        return 180000;
    }
    let mut lo: i64 = 0;
    let mut hi: i64 = 180000;
    while lo + 1 < hi
        invariant
            0 <= lo < hi <= 180000,
            -1000 < c <= 1000,
            cos_spec(lo as int) >= c,
            cos_spec(hi as int) < c,
        decreases hi - lo,
    {
        let mid = lo + (hi - lo) / 2;
        let a = Angle { mdeg: mid };
        if a.cos() >= c {
            lo = mid;
        } else {
            hi = mid;
        }
    }
    lo
}

/// The clamped fixed-point cosine of the angle between two vectors: their
/// dot product over the product of their rounded-down magnitudes.
pub open spec fn milli_cosine(a: Vector, b: Vector) -> int {
    let q = dot_spec(a, b) * 1000 / (sqrt_floor(norm2(a) as nat) as int * (sqrt_floor(
        norm2(b) as nat,
    ) as int));
    if q < -1000 {
        -1000
    } else if q > 1000 {
        1000
    } else {
        q
    }
}

/// Wrap-around closure: every constructed angle is canonical, and an angle
/// added to its complement to a full turn is the zero angle, for every
/// starting count.
pub proof fn lemma_wrap_around_closure(a: int)
    ensures
        0 <= wrap_spec(a) < 360000,
        wrap_spec(wrap_spec(a) + wrap_spec(360000 - a)) == 0,
{
    lemma_mod_bound(a, 360000);
    lemma_mod_bound(360000 - a, 360000);
    lemma_add_mod_noop(a, 360000 - a, 360000);
    lemma_fundamental_div_mod_converse(360000, 360000, 1, 0);
}

impl Angle {
    /// The angle is canonical: within `[0, FULL_TURN)`.
    pub open spec fn wf(&self) -> bool {
        0 <= self.mdeg < 360000
    }

    /// A new angle from a milli-degree count, wrapped into one turn.
    pub fn new(mdeg: i64) -> (r: Angle)
        ensures
            r.mdeg == wrap_spec(mdeg as int),
            r.wf(),
    {
        Angle { mdeg: wrap(mdeg) }
    }

    /// The zero angle.
    pub fn zero() -> (r: Angle)
        ensures
            r.mdeg == 0,
            r.wf(),
    {
        Angle { mdeg: 0 }
    }

    /// Half a turn.
    pub fn pi() -> (r: Angle)
        ensures
            r.mdeg == 180000,
            r.wf(),
    {
        Angle { mdeg: 180000 }
    }

    /// A full turn, which canonicalizes to the zero angle.
    pub fn pi2() -> (r: Angle)
        ensures
            r.mdeg == 0,
            r.wf(),
    {
        Angle::new(FULL_TURN)
    }

    /// Sum of two angles, wrapped.
    pub fn add(self, other: Angle) -> (r: Angle)
        requires
            self.wf(),
            other.wf(),
        ensures
            r.mdeg == wrap_spec(self.mdeg + other.mdeg),
            r.wf(),
    {
        Angle { mdeg: wrap(self.mdeg + other.mdeg) }
    }

    /// Difference of two angles, wrapped.
    pub fn sub(self, other: Angle) -> (r: Angle)
        requires
            self.wf(),
            other.wf(),
        ensures
            r.mdeg == wrap_spec(self.mdeg - other.mdeg),
            r.wf(),
    {
        Angle { mdeg: wrap(self.mdeg - other.mdeg) }
    }

    /// Product of two angles, read as degree values, wrapped.
    pub fn mul(self, other: Angle) -> (r: Angle)
        requires
            self.wf(),
            other.wf(),
        ensures
            r.mdeg == wrap_spec(self.mdeg * other.mdeg / 1000),
            r.wf(),
    {
        let p = mul64(self.mdeg, other.mdeg);
        Angle { mdeg: wrap(p / 1000) }
    }

    /// Quotient of two angles, read as degree values, floor-divided and
    /// wrapped.
    pub fn div(self, other: Angle) -> (r: Angle)
        requires
            self.wf(),
            other.wf(),
            other.mdeg != 0,
        ensures
            r.mdeg == wrap_spec(self.mdeg * 1000 / (other.mdeg as int)),
            r.wf(),
    {
        Angle { mdeg: wrap(self.mdeg * 1000 / other.mdeg) }
    }

    /// The unsigned angle between two vectors, the rounded-down arc cosine
    /// of their clamped fixed-point cosine.
    pub fn from_vectors(vector_a: Vector, vector_b: Vector) -> (r: Angle)
        requires
            vector_a.wf(),
            vector_b.wf(),
            vector_a.dx != 0 || vector_a.dy != 0,
            vector_b.dx != 0 || vector_b.dy != 0,
        ensures
            r.wf(),
            acos_bracket(milli_cosine(vector_a, vector_b), r.mdeg as int),
    {
        let c = clamped_cosine(vector_a, vector_b);
        let m = acos_milli(c);
        Angle { mdeg: m }
    }

    /// Sine, scaled by 1000.
    pub fn sin(&self) -> (r: i64)
        requires
            self.wf(),
        ensures
            r == sin_spec(self.mdeg as int),
            -1000 <= r <= 1000,
    {
        proof {
            lemma_sin_range(self.mdeg as int);
        }
        if self.mdeg <= 180000 {
            sine_arch_exec(self.mdeg)
        } else {
            -sine_arch_exec(self.mdeg - 180000)
        }
    }

    /// Cosine, scaled by 1000.
    pub fn cos(&self) -> (r: i64)
        requires
            self.wf(),
        ensures
            r == cos_spec(self.mdeg as int),
            -1000 <= r <= 1000,
    {
        let shifted = Angle::new(self.mdeg + 90000);
        shifted.sin()
    }
}

/// The one-arch rational sine, evaluated exactly.
fn sine_arch_exec(m: i64) -> (r: i64)
    requires
        0 <= m <= 180000,
    ensures
        r == sine_arch(m as int),
        0 <= r <= 1000,
{
    proof {
        assert(0 <= (m as int) * (180000 - m as int) <= 8100000000) by (nonlinear_arith)
            requires
                0 <= m as int <= 180000,
        ;
        lemma_sine_arch_range(m as int);
    }
    let p = (m as i128) * (180000 - m as i128);
    let num = 4000 * p;
    let den = 40500000000 - p;
    let r = num / den;
    r as i64
}

/// Evaluates the clamped fixed-point cosine of the angle between two
/// nonzero vectors.
pub fn clamped_cosine(vector_a: Vector, vector_b: Vector) -> (r: i64)
    requires
        vector_a.wf(),
        vector_b.wf(),
        vector_a.dx != 0 || vector_a.dy != 0,
        vector_b.dx != 0 || vector_b.dy != 0,
    ensures
        r == milli_cosine(vector_a, vector_b),
        -1000 <= r <= 1000,
{
    let d = vector_a.dot(vector_b);
    let ma = vector_a.magnitude();
    let mb = vector_b.magnitude();
    proof {
        if vector_a.dx != 0 {
            crate::num::lemma_sq_pos(vector_a.dx as int);
        } else {
            crate::num::lemma_sq_pos(vector_a.dy as int);
        }
        if vector_b.dx != 0 {
            crate::num::lemma_sq_pos(vector_b.dx as int);
        } else {
            crate::num::lemma_sq_pos(vector_b.dy as int);
        }
        crate::num::lemma_sq_nonneg(vector_a.dx as int);
        crate::num::lemma_sq_nonneg(vector_a.dy as int);
        crate::num::lemma_sq_nonneg(vector_b.dx as int);
        crate::num::lemma_sq_nonneg(vector_b.dy as int);
        assert(ma as int >= 1) by (nonlinear_arith)
            requires
                norm2(vector_a) >= 1,
                ma as int >= 0,
                norm2(vector_a) < (ma as int + 1) * (ma as int + 1),
        ;
        assert(mb as int >= 1) by (nonlinear_arith)
            requires
                norm2(vector_b) >= 1,
                mb as int >= 0,
                norm2(vector_b) < (mb as int + 1) * (mb as int + 1),
        ;
        assert(ma as int * (mb as int) >= 1) by (nonlinear_arith)
            requires
                ma as int >= 1,
                mb as int >= 1,
        ;
    }
    let prod = mul64(ma, mb);
    let q = floor_div(d as i128 * 1000, prod as i128);
    if q < -1000 {
        -1000
    } else if q > 1000 {
        1000
    } else {
        q as i64
    }
}

} // verus!
