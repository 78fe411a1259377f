//! Fixed-point numeric core: the global scale, the coordinate range, and
//! exact integer division and square-root primitives that the geometric
//! formulas are written with.

use vstd::arithmetic::div_mod::{
    lemma_div_is_ordered, lemma_div_multiples_vanish, lemma_fundamental_div_mod,
    lemma_fundamental_div_mod_converse, lemma_mod_bound,
};
use vstd::prelude::*;

verus! {

/// Counts per geometric unit: a coordinate of 1000 is one unit.
pub const UNIT: i64 = 1000;

/// Largest magnitude (in counts) a coordinate, radius or length may have.
/// Keeping coordinates within this range lets every intermediate product of
/// the collision formulas, up to fourth powers, fit in an `i128`.
pub const COORD_LIMIT: i64 = 16777216;

/// Largest magnitude a derived coordinate may have: rays extended to cross
/// a shape stay within eight times the coordinate range.
pub const WIDE_LIMIT: i64 = 134217728;

/// The value `x` is a representable coordinate.
pub open spec fn in_range(x: int) -> bool {
    -COORD_LIMIT <= x <= COORD_LIMIT
}

/// The value `x` is within the wider range of derived coordinates.
pub open spec fn wide_range(x: int) -> bool {
    -WIDE_LIMIT <= x <= WIDE_LIMIT
}

/// Magnitude of a mathematical integer.
pub open spec fn iabs(x: int) -> int {
    if x < 0 {
        -x
    } else {
        x
    }
}

/// The larger of two integers.
pub open spec fn max_i(a: int, b: int) -> int {
    if a >= b {
        a
    } else {
        b
    }
}

/// The smaller of two integers.
pub open spec fn min_i(a: int, b: int) -> int {
    if a <= b {
        a
    } else {
        b
    }
}

/// Magnitude of a machine integer.
pub fn abs64(x: i64) -> (r: i64)
    requires
        x > i64::MIN,
    ensures
        r == iabs(x as int),
{
    if x < 0 {
        -x
    } else {
        x
    }
}

/// Bounds on two factors bound their product.
pub proof fn lemma_mul_bounds(a: int, ca: int, b: int, cb: int)
    by (nonlinear_arith)
    requires
        -ca <= a <= ca,
        -cb <= b <= cb,
        0 <= ca,
        0 <= cb,
    ensures
        -(ca * cb) <= a * b <= ca * cb,
{
}

/// A nonnegative numerator divided by a positive divisor shrinks.
pub proof fn lemma_div_shrinks(n: int, d: int)
    by (nonlinear_arith)
    requires
        0 <= n,
        0 < d,
    ensures
        0 <= n / d <= n,
{
}

/// Division that rounds toward negative infinity, matching the meaning of
/// `/` in specifications (Euclidean division by a positive divisor).
pub fn floor_div(n: i128, d: i128) -> (q: i128)
    requires
        d > 0,
        n > i128::MIN,
    ensures
        q == n as int / d as int,
{
    if n >= 0 {
        n / d
    } else {
        let m = -n;
        let t = m / d;
        let s = m % d;
        proof {
            let mi = m as int;
            let di = d as int;
            let ti = mi / di;
            let ri = mi % di;
            lemma_fundamental_div_mod(mi, di);
            if ri == 0 {
                assert(n as int == (-ti) * di + 0) by (nonlinear_arith)
                    requires
                        mi == di * ti + ri,
                        ri == 0,
                        n == -mi,
                ;
                lemma_fundamental_div_mod_converse(n as int, di, -ti, 0);
            } else {
                assert(n as int == (-ti - 1) * di + (di - ri)) by (nonlinear_arith)
                    requires
                        mi == di * ti + ri,
                        n == -mi,
                ;
                lemma_fundamental_div_mod_converse(n as int, di, -ti - 1, di - ri);
            }
        }
        if s == 0 {
            -t
        } else {
            -t - 1
        }
    }
}

/// Square of a mathematical integer.
pub open spec fn sq(x: int) -> int {
    x * x
}

/// Squares are nonnegative.
pub proof fn lemma_sq_nonneg(x: int)
    by (nonlinear_arith)
    ensures
        sq(x) >= 0,
{
}

/// Squares of nonzero integers are at least one.
pub proof fn lemma_sq_pos(x: int)
    by (nonlinear_arith)
    requires
        x != 0,
    ensures
        sq(x) >= 1,
{
}

/// `r` is the square root of `n`, rounded down.
pub open spec fn is_sqrt_floor(n: int, r: int) -> bool {
    &&& 0 <= r
    &&& r * r <= n
    &&& n < (r + 1) * (r + 1)
}

/// The square root of `n`, rounded down.
pub open spec fn sqrt_floor(n: nat) -> nat
    decreases n,
{
    if n == 0 {
        0
    } else {
        let r = sqrt_floor((n - 1) as nat);
        if (r + 1) * (r + 1) <= n {
            r + 1
        } else {
            r
        }
    }
}

/// `sqrt_floor` satisfies the rounded-down square-root property.
pub proof fn lemma_sqrt_floor(n: nat)
    ensures
        is_sqrt_floor(n as int, sqrt_floor(n) as int),
    decreases n,
{
    if n > 0 {
        lemma_sqrt_floor((n - 1) as nat);
        let r = sqrt_floor((n - 1) as nat);
        assert((r + 1) * (r + 1) < (r + 2) * (r + 2)) by (nonlinear_arith)
            requires
                r >= 0,
        ;
    }
}

/// At most one value is the rounded-down square root of `n`.
pub proof fn lemma_sqrt_floor_unique(n: int, a: int, b: int)
    by (nonlinear_arith)
    requires
        is_sqrt_floor(n, a),
        is_sqrt_floor(n, b),
    ensures
        a == b,
{
}

/// A root below the bound of what it squares to.
pub proof fn lemma_sqrt_below(n: int, r: int, c: int)
    by (nonlinear_arith)
    requires
        0 <= r,
        r * r <= n,
        n < c * c,
        0 <= c,
    ensures
        r < c,
{
}

/// Floor division by a positive divisor moves a value toward zero.
pub proof fn lemma_div_magnitude(n: int, d: int)
    requires
        d >= 1,
    ensures
        n >= 0 ==> 0 <= n / d <= n,
        n < 0 ==> n <= n / d <= 0,
{
    let q = n / d;
    let r = n % d;
    lemma_fundamental_div_mod(n, d);
    lemma_mod_bound(n, d);
    if n >= 0 {
        lemma_div_shrinks(n, d);
    } else {
        assert(q <= 0 && q >= n) by (nonlinear_arith)
            requires
                n == d * q + r,
                0 <= r < d,
                d >= 1,
                n < 0,
        ;
    }
}

/// A value within `k` multiples of a positive divisor divides to within
/// `k`.
pub proof fn lemma_div_bounded(n: int, k: int, d: int)
    requires
        -(k * d) <= n <= k * d,
        1 <= d,
        0 <= k,
    ensures
        -k <= n / d <= k,
{
    assert(k * d == d * k) by (nonlinear_arith);
    assert(-(k * d) == d * (-k)) by (nonlinear_arith);
    lemma_div_is_ordered(-(k * d), n, d);
    lemma_div_is_ordered(n, k * d, d);
    lemma_div_multiples_vanish(k, d);
    lemma_div_multiples_vanish(-k, d);
}

/// A value below `k` multiples of a positive divisor divides to below `k`.
pub proof fn lemma_div_below(x: int, k: int, n: int)
    requires
        0 <= x,
        x < k * n,
        1 <= n,
    ensures
        0 <= x / n < k,
{
    let q = x / n;
    let r = x % n;
    lemma_fundamental_div_mod(x, n);
    lemma_mod_bound(x, n);
    assert(0 <= q && q < k) by (nonlinear_arith)
        requires
            x == n * q + r,
            0 <= r < n,
            0 <= x,
            x < k * n,
            1 <= n,
    ;
}

/// Scaling by a clamped ratio `k / d` keeps a value between zero and
/// itself.
pub proof fn lemma_mul_div_clamped(a: int, k: int, d: int)
    requires
        0 <= k <= d,
        1 <= d,
    ensures
        a >= 0 ==> 0 <= a * k / d <= a,
        a < 0 ==> a <= a * k / d <= 0,
{
    lemma_div_multiples_vanish(a, d);
    lemma_div_multiples_vanish(0, d);
    assert(d * 0 == 0) by (nonlinear_arith);
    assert(a * d == d * a) by (nonlinear_arith);
    if a >= 0 {
        assert(0 <= a * k <= a * d) by (nonlinear_arith)
            requires
                0 <= k <= d,
                a >= 0,
        ;
        lemma_div_is_ordered(0, a * k, d);
        lemma_div_is_ordered(a * k, a * d, d);
    } else {
        assert(a * d <= a * k <= 0) by (nonlinear_arith)
            requires
                0 <= k <= d,
                a < 0,
        ;
        lemma_div_is_ordered(a * d, a * k, d);
        lemma_div_is_ordered(a * k, 0, d);
    }
}

/// Division rounding toward negative infinity for any nonzero divisor.
pub open spec fn fdiv(n: int, d: int) -> int {
    if d > 0 {
        n / d
    } else {
        (-n) / (-d)
    }
}

/// Division rounding toward negative infinity, for either divisor sign.
pub fn floor_div_signed(n: i128, d: i128) -> (q: i128)
    requires
        d != 0,
        i128::MIN < n,
        i128::MIN < d,
    ensures
        q == fdiv(n as int, d as int),
        -iabs(n as int) <= q <= iabs(n as int),
{
    if d > 0 {
        proof {
            lemma_div_magnitude(n as int, d as int);
        }
        floor_div(n, d)
    } else {
        proof {
            lemma_div_magnitude(-(n as int), -(d as int));
        }
        floor_div(-n, -d)
    }
}

/// Largest input whose square root the bisection below can take.
pub const SQRT_INPUT_CAP: i128 = 4611686018427387904 * 4611686018427387904;

/// Integer square root, rounded down.
pub fn isqrt(n: i128) -> (r: i128)
    requires
        0 <= n < SQRT_INPUT_CAP,
    ensures
        0 <= r <= 4611686018427387904,
        r * r <= n,
        n < (r + 1) * (r + 1),
        r == sqrt_floor(n as nat),
{
    let mut lo: i128 = 0;
    let mut hi: i128 = 4611686018427387904;
    while lo + 1 < hi
        invariant
            0 <= lo < hi <= 4611686018427387904,
            lo * lo <= n,
            n < hi * hi,
        decreases hi - lo,
    {
        let mid = lo + (hi - lo) / 2;
        proof {
            lemma_mul_bounds(
                mid as int,
                4611686018427387904,
                mid as int,
                4611686018427387904,
            );
        }
        if mid * mid <= n {
            lo = mid;
        } else {
            hi = mid;
        }
    }
    proof {
        lemma_sqrt_floor(n as nat);
        lemma_sqrt_floor_unique(n as int, lo as int, sqrt_floor(n as nat) as int);
    }
    lo
}

/// The square root of `n`, rounded up.
pub open spec fn sqrt_ceil(n: nat) -> nat {
    let r = sqrt_floor(n);
    if r * r == n {
        r
    } else {
        r + 1
    }
}

/// Integer square root, rounded up.
pub fn ceil_sqrt(n: i128) -> (r: i128)
    requires
        0 <= n < SQRT_INPUT_CAP,
    ensures
        0 <= r,
        n <= r * r,
        r == 0 || (r - 1) * (r - 1) < n,
        r == sqrt_ceil(n as nat),
{
    let s = isqrt(n);
    if s * s < n {
        s + 1
    } else {
        proof {
            if s >= 1 {
                assert((s as int - 1) * (s as int - 1) < s as int * s as int)
                    by (nonlinear_arith)
                    requires
                        s as int >= 1,
                ;
            }
        }
        s
    }
}

/// Product of two coordinate-sized values, with the bound callers need to
/// chain further arithmetic without overflow.
pub fn mul64(a: i64, b: i64) -> (r: i64)
    requires
        iabs(a as int) <= 536870912,
        iabs(b as int) <= 536870912,
    ensures
        r == a * b,
        iabs(r as int) <= 288230376151711744,
{
    proof {
        lemma_mul_bounds(a as int, 536870912, b as int, 536870912);
    }
    let w = (a as i128) * (b as i128);
    w as i64
}

/// Product of two wide values whose bounds the caller supplies.
pub fn wide_mul(a: i128, b: i128, Ghost(ca): Ghost<int>, Ghost(cb): Ghost<int>) -> (r: i128)
    requires
        iabs(a as int) <= ca,
        iabs(b as int) <= cb,
        ca * cb <= i128::MAX,
    ensures
        r == a * b,
        iabs(r as int) <= ca * cb,
{
    proof {
        lemma_mul_bounds(a as int, ca, b as int, cb);
    }
    a * b
}

} // verus!
