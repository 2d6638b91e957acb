//! Fixed-point scalars.
//!
//! A scalar stores its world value times [`SCALE`]; products and quotients
//! are computed on 128-bit intermediates and rounded toward zero. The spec
//! functions [`tdiv`], [`fmul`] and [`sqrt_floor`] are the mathematical
//! model that every contract in the crate is stated over.

use vstd::arithmetic::div_mod::{
    lemma_fundamental_div_mod, lemma_mod_division_less_than_divisor,
    lemma_div_is_ordered, lemma_div_multiples_vanish, lemma_div_nonincreasing,
    lemma_div_pos_is_pos,
};
use vstd::prelude::*;

verus! {

/// Fixed-point scale: an `i64` scalar holds its world value times this.
pub const SCALE: i64 = 1048576;

/// Quotient of `a` by `b` rounded toward zero, the rounding used throughout
/// the fixed-point arithmetic. Meaningful for `b > 0`.
pub open spec fn tdiv(a: int, b: int) -> int
    recommends
        b > 0,
{
    if a >= 0 {
        a / b
    } else {
        -((-a) / b)
    }
}

/// Fixed-point product: the wide product of two scalars, rescaled back down.
pub open spec fn fmul(a: int, b: int) -> int {
    tdiv(a * b, SCALE as int)
}

/// `r` is the integer square root of `n`, rounded down.
pub open spec fn is_sqrt_floor(n: int, r: int) -> bool {
    0 <= r && r * r <= n && n < (r + 1) * (r + 1)
}

/// The integer square root of `n`, rounded down. Meaningful for `n >= 0`.
pub open spec fn sqrt_floor(n: int) -> int {
    choose|r: int| is_sqrt_floor(n, r)
}

/// Every nonnegative integer has a rounded-down square root.
pub proof fn lemma_sqrt_floor_exists(n: int)
    requires
        n >= 0,
    ensures
        is_sqrt_floor(n, sqrt_floor(n)),
    decreases n,
{
    if n == 0 {
        assert(is_sqrt_floor(0, 0));
    } else {
        lemma_sqrt_floor_exists(n - 1);
        let p = sqrt_floor(n - 1);
        if (p + 1) * (p + 1) <= n {
            assert((p + 1) * (p + 1) < (p + 2) * (p + 2)) by (nonlinear_arith)
                requires
                    p >= 0,
            ;
            assert(is_sqrt_floor(n, p + 1));
            assert(exists|r: int| is_sqrt_floor(n, r));
        } else {
            assert(is_sqrt_floor(n, p));
            assert(exists|r: int| is_sqrt_floor(n, r));
        }
    }
}

/// The rounded-down square root is unique.
pub proof fn lemma_sqrt_floor_unique(n: int, a: int, b: int)
    requires
        is_sqrt_floor(n, a),
        is_sqrt_floor(n, b),
    ensures
        a == b,
{
    if a < b {
        assert((a + 1) * (a + 1) <= b * b) by (nonlinear_arith)
            requires
                0 <= a,
                a + 1 <= b,
        ;
    }
    if b < a {
        assert((b + 1) * (b + 1) <= a * a) by (nonlinear_arith)
            requires
                0 <= b,
                b + 1 <= a,
        ;
    }
}

/// The rounded-down square root never decreases.
pub proof fn lemma_sqrt_floor_monotone(m: int, n: int)
    requires
        0 <= m <= n,
    ensures
        sqrt_floor(m) <= sqrt_floor(n),
{
    lemma_sqrt_floor_exists(m);
    lemma_sqrt_floor_exists(n);
    let a = sqrt_floor(m);
    let b = sqrt_floor(n);
    if b < a {
        assert((b + 1) * (b + 1) <= a * a) by (nonlinear_arith)
            requires
                0 <= b,
                b + 1 <= a,
        ;
    }
}

/// On perfect squares the rounded-down square root is exact.
pub proof fn lemma_sqrt_floor_square(x: int)
    requires
        x >= 0,
    ensures
        sqrt_floor(x * x) == x,
{
    assert(0 <= x * x && x * x < (x + 1) * (x + 1)) by (nonlinear_arith)
        requires
            x >= 0,
    ;
    assert(is_sqrt_floor(x * x, x));
    lemma_sqrt_floor_exists(x * x);
    lemma_sqrt_floor_unique(x * x, sqrt_floor(x * x), x);
}

/// A quotient rounded toward zero is no larger in magnitude than any bound
/// on the numerator divided by the denominator.
pub proof fn lemma_tdiv_bound(a: int, b: int, c: int)
    requires
        b > 0,
        0 <= c,
        -(c * b) <= a <= c * b,
    ensures
        -c <= tdiv(a, b) <= c,
{
    lemma_div_multiples_vanish(c, b);
    assert(b * c == c * b) by (nonlinear_arith);
    if a >= 0 {
        lemma_div_is_ordered(a, c * b, b);
        lemma_div_pos_is_pos(a, b);
    } else {
        lemma_div_is_ordered(-a, c * b, b);
        lemma_div_pos_is_pos(-a, b);
    }
}

/// Magnitude of an integer.
pub open spec fn iabs(a: int) -> int {
    if a >= 0 {
        a
    } else {
        -a
    }
}

/// A quotient rounded toward zero sits within one divisor of the exact
/// ratio: `|q| b <= |a| < |q| b + b`.
pub proof fn lemma_tdiv_abs(a: int, b: int)
    requires
        b > 0,
    ensures
        iabs(tdiv(a, b)) * b <= iabs(a),
        iabs(a) < iabs(tdiv(a, b)) * b + b,
{
    if a >= 0 {
        lemma_fundamental_div_mod(a, b);
        lemma_mod_division_less_than_divisor(a, b);
        lemma_div_pos_is_pos(a, b);
        assert(b * (a / b) == (a / b) * b) by (nonlinear_arith);
    } else {
        lemma_fundamental_div_mod(-a, b);
        lemma_mod_division_less_than_divisor(-a, b);
        lemma_div_pos_is_pos(-a, b);
        assert(b * ((-a) / b) == ((-a) / b) * b) by (nonlinear_arith);
    }
}

/// Squares of factor pairs ordered in magnitude are ordered.
pub proof fn lemma_abs_sq_le(x: int, p: int, y: int, q: int)
    requires
        0 <= p,
        0 <= q,
        iabs(x) * p <= iabs(y) * q,
    ensures
        (x * x) * (p * p) <= (y * y) * (q * q),
{
    let a = iabs(x);
    let b = iabs(y);
    assert(a * a == x * x) by (nonlinear_arith)
        requires
            a == x || a == -x,
    ;
    assert(b * b == y * y) by (nonlinear_arith)
        requires
            b == y || b == -y,
    ;
    assert((a * p) * (a * p) <= (b * q) * (b * q)) by (nonlinear_arith)
        requires
            0 <= a,
            0 <= b,
            0 <= p,
            0 <= q,
            a * p <= b * q,
    ;
    assert((x * x) * (p * p) <= (y * y) * (q * q)) by (nonlinear_arith)
        requires
            a * a == x * x,
            b * b == y * y,
            (a * p) * (a * p) <= (b * q) * (b * q),
    ;
}

/// A truncated product `n` of ratio `u m / s` undershoots the exact square
/// by at most `2 |u| m s`.
pub proof fn lemma_abs_sq_lower(n: int, s: int, u: int, m: int)
    requires
        s >= 1,
        m >= 0,
        iabs(u) * m < iabs(n) * s + s,
    ensures
        (u * u) * (m * m) - 2 * ((iabs(u) * m) * s) <= (n * n) * (s * s),
{
    let p = iabs(n) * s;
    let q = iabs(u) * m;
    assert(0 <= p && 0 <= q) by (nonlinear_arith)
        requires
            p == iabs(n) * s,
            q == iabs(u) * m,
            0 <= iabs(n),
            0 <= iabs(u),
            0 <= s,
            0 <= m,
    ;
    assert(q * q - 2 * (q * s) <= p * p) by (nonlinear_arith)
        requires
            0 <= p,
            0 <= q,
            q < p + s,
            0 <= s,
    ;
    let a = iabs(n);
    let b = iabs(u);
    assert(a * a == n * n) by (nonlinear_arith)
        requires
            a == n || a == -n,
    ;
    assert(b * b == u * u) by (nonlinear_arith)
        requires
            b == u || b == -u,
    ;
    assert((u * u) * (m * m) - 2 * ((iabs(u) * m) * s) <= (n * n) * (s * s)) by (nonlinear_arith)
        requires
            a * a == n * n,
            b * b == u * u,
            b == iabs(u),
            p == a * s,
            q == b * m,
            q * q - 2 * (q * s) <= p * p,
    ;
}

/// Exec form of `tdiv` on 128-bit intermediates.
pub(crate) fn div_fx(a: i128, b: i128) -> (r: i128)
    requires
        b > 0,
        -85070591730234615865843651857942052864 < a,
        a < 85070591730234615865843651857942052864,
    ensures
        r == tdiv(a as int, b as int),
{
    if a >= 0 {
        let q: u128 = (a as u128) / (b as u128);
        proof {
            lemma_div_nonincreasing(a as int, b as int);
            lemma_div_pos_is_pos(a as int, b as int);
        }
        q as i128
    } else {
        let n: i128 = -a;
        let q: u128 = (n as u128) / (b as u128);
        proof {
            lemma_div_nonincreasing(n as int, b as int);
            lemma_div_pos_is_pos(n as int, b as int);
        }
        -(q as i128)
    }
}

/// Exec form of `fmul`. The bound on the wide product keeps the rescaled
/// result inside `i64`.
pub(crate) fn fmul_fx(a: i64, b: i64) -> (r: i64)
    requires
        -4835703278458516698824704 <= (a as int) * (b as int),
        (a as int) * (b as int) <= 4835703278458516698824704,
    ensures
        r == fmul(a as int, b as int),
{
    let p: i128 = (a as i128) * (b as i128);
    let q: i128 = div_fx(p, SCALE as i128);
    proof {
        lemma_tdiv_bound(p as int, SCALE as int, 4611686018427387904);
    }
    q as i64
}

/// Exec integer square root by bisection.
pub(crate) fn isqrt_fx(n: u128) -> (r: u128)
    requires
        n < 5192296858534827628530496329220096,
    ensures
        is_sqrt_floor(n as int, r as int),
        r == sqrt_floor(n as int),
        r < 72057594037927936,
{
    let mut lo: u128 = 0;
    let mut hi: u128 = 72057594037927936;
    while hi - lo > 1
        invariant
            lo < hi <= 72057594037927936,
            (lo as int) * (lo as int) <= n as int,
            (n as int) < (hi as int) * (hi as int),
        decreases hi - lo,
    {
        let mid: u128 = lo + (hi - lo) / 2;
        proof {
            assert((mid as int) * (mid as int) <= 5192296858534827628530496329220096) by (nonlinear_arith)
                requires
                    0 <= mid as int <= 72057594037927936,
            ;
        }
        if mid * mid <= n {
            lo = mid;
        } else {
            hi = mid;
        }
    }
    proof {
        assert(is_sqrt_floor(n as int, lo as int));
        assert(exists|r: int| is_sqrt_floor(n as int, r));
        lemma_sqrt_floor_exists(n as int);
        lemma_sqrt_floor_unique(n as int, sqrt_floor(n as int), lo as int);
    }
    lo
}

} // verus!
