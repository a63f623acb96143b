//! Fixed-point numbers: a real `r` is held as the integer `r * SCALE`.

use vstd::prelude::*;

verus! {

/// Number of raw units that make up the real number one.
pub const SCALE: i64 = 1_000_000;

/// Largest magnitude a stored coordinate may have, in raw units.
pub const COORD_LIMIT: i64 = 1_000_000_000_000_000;

/// Quotient of `n` by a positive `d`, rounded toward zero.
pub open spec fn trunc_div(n: int, d: int) -> int {
    if n >= 0 {
        n / d
    } else {
        -((-n) / d)
    }
}

/// The magnitude of a truncated quotient never exceeds that of the dividend,
/// and the quotient has the dividend's sign (or is zero).
pub proof fn lemma_trunc_div_bounds(n: int, d: int)
    requires
        d > 0,
    ensures
        n >= 0 ==> 0 <= trunc_div(n, d) <= n,
        n <= 0 ==> n <= trunc_div(n, d) <= 0,
        trunc_div(-n, d) == -trunc_div(n, d),
{
    if n >= 0 {
        assert(0 <= n / d <= n) by (nonlinear_arith)
            requires n >= 0, d > 0;
    } else {
        assert(0 <= (-n) / d <= -n) by (nonlinear_arith)
            requires -n >= 0, d > 0;
    }
}

/// A multiple of the divisor is divided exactly.
pub proof fn lemma_trunc_div_exact(q: int, d: int)
    requires
        d > 0,
    ensures
        trunc_div(q * d, d) == q,
{
    if q >= 0 {
        assert(q * d >= 0 && (q * d) / d == q) by (nonlinear_arith)
            requires q >= 0, d > 0;
    } else {
        assert(-(q * d) == (-q) * d && (-q) * d >= 0 && ((-q) * d) / d == -q) by (nonlinear_arith)
            requires q < 0, d > 0;
        assert(q * d < 0) by (nonlinear_arith)
            requires q < 0, d > 0;
    }
}

/// A product is bounded by the product of its factors' bounds.
pub proof fn lemma_product_bound(a: int, b: int, a_max: int, b_max: int)
    requires
        -a_max <= a <= a_max,
        -b_max <= b <= b_max,
    ensures
        -(a_max * b_max) <= a * b <= a_max * b_max,
{
    assert(-(a_max * b_max) <= a * b <= a_max * b_max) by (nonlinear_arith)
        requires -a_max <= a <= a_max, -b_max <= b <= b_max;
}

/// Squaring keeps the order of numbers from zero on.
pub proof fn lemma_square_order(x: int, y: int)
    requires
        0 <= x,
        0 <= y,
    ensures
        x <= y <==> x * x <= y * y,
        x < y <==> x * x < y * y,
{
    if x <= y {
        assert(x * x <= y * y) by (nonlinear_arith)
            requires 0 <= x <= y;
    }
    if x < y {
        assert(x * x < y * y) by (nonlinear_arith)
            requires 0 <= x < y;
    }
    if y <= x {
        assert(y * y <= x * x) by (nonlinear_arith)
            requires 0 <= y <= x;
    }
    if y < x {
        assert(y * y < x * x) by (nonlinear_arith)
            requires 0 <= y < x;
    }
}

/// The magnitude `q` of a truncated quotient of `n` by a positive `d`
/// brackets the magnitude of `n`: `q * d <= |n| < (q + 1) * d`.
pub proof fn lemma_trunc_div_brackets(n: int, d: int)
    requires
        d > 0,
    ensures
        ({
            let q = if n >= 0 { trunc_div(n, d) } else { -trunc_div(n, d) };
            let m = if n >= 0 { n } else { -n };
            0 <= q && q * d <= m < (q + 1) * d && q * q == trunc_div(n, d) * trunc_div(n, d)
        }),
{
    let m = if n >= 0 { n } else { -n };
    let q = m / d;
    assert(0 <= q && q * d <= m < (q + 1) * d) by (nonlinear_arith)
        requires q == m / d, m >= 0, d > 0;
    assert((-q) * (-q) == q * q) by (nonlinear_arith);
}

/// Divides `n` by `d`, rounding toward zero.
pub fn div_toward_zero(n: i128, d: i128) -> (q: i128)
    requires
        d > 0,
        n > i128::MIN,
    ensures
        q == trunc_div(n as int, d as int),
{
    proof {
        lemma_trunc_div_bounds(n as int, d as int);
    }
    if n >= 0 {
        n / d
    } else {
        let m: i128 = -n;
        -(m / d)
    }
}

/// `r` is the floor of the square root of `n`.
pub open spec fn is_isqrt(n: int, r: int) -> bool {
    0 <= r && r * r <= n && n < (r + 1) * (r + 1)
}

/// The integer square root is unique.
pub proof fn lemma_isqrt_unique(n: int, r: int, s: int)
    requires
        is_isqrt(n, r),
        is_isqrt(n, s),
    ensures
        r == s,
{
    if r < s {
        assert((r + 1) * (r + 1) <= s * s) by (nonlinear_arith)
            requires 0 <= r, r + 1 <= s;
    } else if s < r {
        assert((s + 1) * (s + 1) <= r * r) by (nonlinear_arith)
            requires 0 <= s, s + 1 <= r;
    }
}

/// The floor of the square root of `n`, for `n >= 0`.
pub open spec fn floor_sqrt(n: int) -> int {
    choose|r: int| is_isqrt(n, r)
}

/// Every number from zero on has a floor of its square root, and
/// [`floor_sqrt`] is it.
pub proof fn lemma_floor_sqrt_exists(n: int)
    requires
        n >= 0,
    ensures
        is_isqrt(n, floor_sqrt(n)),
    decreases n,
{
    if n == 0 {
        assert(is_isqrt(0, 0));
    } else {
        lemma_floor_sqrt_exists(n - 1);
        let r = floor_sqrt(n - 1);
        if n < (r + 1) * (r + 1) {
            assert(is_isqrt(n, r));
        } else {
            assert((r + 2) * (r + 2) > (r + 1) * (r + 1)) by (nonlinear_arith)
                requires r >= 0;
            assert(is_isqrt(n, r + 1));
        }
    }
}

/// Whatever meets [`is_isqrt`] is the floor of the square root.
pub proof fn lemma_floor_sqrt_is(n: int, r: int)
    requires
        is_isqrt(n, r),
    ensures
        floor_sqrt(n) == r,
{
    lemma_isqrt_unique(n, r, floor_sqrt(n));
}

/// Computes the floor of the square root of `n` by bisection.
pub fn isqrt(n: u64) -> (r: u64)
    ensures
        r == floor_sqrt(n as int),
        is_isqrt(n as int, r as int),
{
    let mut lo: u64 = 0;
    let mut hi: u64 = 4_294_967_296;
    while hi - lo > 1
        invariant
            lo < hi <= 4_294_967_296,
            lo * lo <= n,
            n < hi * hi,
        decreases hi - lo,
    {
        let mid: u64 = lo + (hi - lo) / 2;
        assert(mid * mid <= 4_294_967_295 * 4_294_967_295) by (nonlinear_arith)
            requires 0 <= mid <= 4_294_967_295;
        if mid * mid <= n {
            lo = mid;
        } else {
            hi = mid;
        }
    }
    proof {
        lemma_floor_sqrt_is(n as int, lo as int);
    }
    lo
}

} // verus!
