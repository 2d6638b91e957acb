//! Fixed-point 3-vectors and the spec-level model of their arithmetic.
//!
//! Every component holds its world value times [`SCALE`]. The spec
//! functions (`v_add`, `v_cross`, `v_unit`, ...) over the ghost [`Vec3i`]
//! are the model; each exec operation returns exactly its spec value.

use crate::fixed::{
    div_fx, fmul, fmul_fx, iabs, isqrt_fx, lemma_abs_sq_le, lemma_abs_sq_lower,
    lemma_sqrt_floor_exists, lemma_sqrt_floor_monotone, lemma_sqrt_floor_square,
    lemma_tdiv_abs, lemma_tdiv_bound, sqrt_floor, tdiv, SCALE,
};
use vstd::prelude::*;

verus! {

/// A fixed-point vector: each component is the world coordinate times `SCALE`.
#[derive(Clone, Copy, Debug, PartialEq, Eq, Structural)]
pub struct Vec3 {
    pub x: i64,
    pub y: i64,
    pub z: i64,
}

/// Spec-level vector with unbounded integer components.
pub ghost struct Vec3i {
    pub x: int,
    pub y: int,
    pub z: int,
}

impl View for Vec3 {
    type V = Vec3i;

    open spec fn view(&self) -> Vec3i {
        Vec3i { x: self.x as int, y: self.y as int, z: self.z as int }
    }
}

pub open spec fn v_zero() -> Vec3i {
    Vec3i { x: 0, y: 0, z: 0 }
}

pub open spec fn v_add(a: Vec3i, b: Vec3i) -> Vec3i {
    Vec3i { x: a.x + b.x, y: a.y + b.y, z: a.z + b.z }
}

pub open spec fn v_sub(a: Vec3i, b: Vec3i) -> Vec3i {
    Vec3i { x: a.x - b.x, y: a.y - b.y, z: a.z - b.z }
}

/// Scale a vector by a fixed-point scalar.
pub open spec fn v_scale(a: Vec3i, s: int) -> Vec3i {
    Vec3i { x: fmul(a.x, s), y: fmul(a.y, s), z: fmul(a.z, s) }
}

/// Cross product of two fixed-point vectors.
pub open spec fn v_cross(a: Vec3i, b: Vec3i) -> Vec3i {
    Vec3i {
        x: fmul(a.y, b.z) - fmul(a.z, b.y),
        y: fmul(a.z, b.x) - fmul(a.x, b.z),
        z: fmul(a.x, b.y) - fmul(a.y, b.x),
    }
}

/// Dot product of two fixed-point vectors, rescaled back down.
pub open spec fn v_dot(a: Vec3i, b: Vec3i) -> int {
    tdiv(a.x * b.x + a.y * b.y + a.z * b.z, SCALE as int)
}

/// Sum of the squared components. This is `SCALE * SCALE` times the squared
/// world length, so its rounded-down square root is the fixed-point length.
pub open spec fn v_norm_sq(a: Vec3i) -> int {
    a.x * a.x + a.y * a.y + a.z * a.z
}

/// Fixed-point length of a vector.
pub open spec fn v_mag(a: Vec3i) -> int {
    sqrt_floor(v_norm_sq(a))
}

/// Unit vector in the direction of `a` (fixed-point, so each component lies
/// in `[-SCALE, SCALE]`); the zero vector is mapped to zero.
pub open spec fn v_unit(a: Vec3i) -> Vec3i {
    if v_norm_sq(a) == 0 {
        v_zero()
    } else {
        Vec3i {
            x: tdiv(a.x * SCALE, v_mag(a)),
            y: tdiv(a.y * SCALE, v_mag(a)),
            z: tdiv(a.z * SCALE, v_mag(a)),
        }
    }
}

/// All components of `a` lie in `[-c, c]`.
pub open spec fn v_in_bounds(a: Vec3i, c: int) -> bool {
    &&& -c <= a.x <= c
    &&& -c <= a.y <= c
    &&& -c <= a.z <= c
}

pub proof fn lemma_norm_sq_nonneg(a: Vec3i)
    ensures
        v_norm_sq(a) >= 0,
        a.x * a.x <= v_norm_sq(a),
        a.y * a.y <= v_norm_sq(a),
        a.z * a.z <= v_norm_sq(a),
{
    assert(a.x * a.x >= 0 && a.y * a.y >= 0 && a.z * a.z >= 0) by (nonlinear_arith);
}

/// A product of bounded factors is bounded by the product of the bounds.
pub proof fn lemma_mul_abs_bound(x: int, y: int, cx: int, cy: int)
    requires
        -cx <= x <= cx,
        -cy <= y <= cy,
        0 <= cx,
        0 <= cy,
    ensures
        -(cx * cy) <= x * y <= cx * cy,
{
    assert(-(cx * cy) <= x * y <= cx * cy) by (nonlinear_arith)
        requires
            -cx <= x <= cx,
            -cy <= y <= cy,
            0 <= cx,
            0 <= cy,
    ;
}

/// A fixed-point product of bounded factors is bounded.
pub proof fn lemma_fmul_bound(x: int, y: int, c: int)
    requires
        0 <= c,
        -(c * (SCALE as int)) <= x * y <= c * (SCALE as int),
    ensures
        -c <= fmul(x, y) <= c,
{
    lemma_tdiv_bound(x * y, SCALE as int, c);
}

/// The fixed-point length of a vector with components in `[-c, c]` is at
/// most `2 * c`.
pub proof fn lemma_mag_bounds(a: Vec3i, c: int)
    requires
        0 <= c,
        v_in_bounds(a, c),
    ensures
        0 <= v_mag(a),
        v_mag(a) <= 2 * c,
{
    lemma_norm_sq_nonneg(a);
    let ns = v_norm_sq(a);
    assert(a.x * a.x <= c * c) by (nonlinear_arith)
        requires
            -c <= a.x <= c,
    ;
    assert(a.y * a.y <= c * c) by (nonlinear_arith)
        requires
            -c <= a.y <= c,
    ;
    assert(a.z * a.z <= c * c) by (nonlinear_arith)
        requires
            -c <= a.z <= c,
    ;
    lemma_sqrt_floor_exists(ns);
    let m = v_mag(a);
    if m > 2 * c {
        assert(m * m > 3 * (c * c)) by (nonlinear_arith)
            requires
                m >= 2 * c + 1,
                c >= 0,
        ;
    }
}

/// Each component of a vector is bounded in magnitude by the vector's
/// fixed-point length.
pub proof fn lemma_comp_le_mag(a: Vec3i)
    ensures
        -v_mag(a) <= a.x <= v_mag(a),
        -v_mag(a) <= a.y <= v_mag(a),
        -v_mag(a) <= a.z <= v_mag(a),
{
    lemma_norm_sq_nonneg(a);
    let ns = v_norm_sq(a);
    lemma_sqrt_floor_exists(ns);
    lemma_comp_le_mag_one(a.x, ns);
    lemma_comp_le_mag_one(a.y, ns);
    lemma_comp_le_mag_one(a.z, ns);
}

proof fn lemma_comp_le_mag_one(v: int, ns: int)
    requires
        0 <= ns,
        v * v <= ns,
    ensures
        -sqrt_floor(ns) <= v <= sqrt_floor(ns),
{
    assert(v * v >= 0) by (nonlinear_arith);
    lemma_sqrt_floor_monotone(v * v, ns);
    if v >= 0 {
        lemma_sqrt_floor_square(v);
    } else {
        assert((-v) * (-v) == v * v) by (nonlinear_arith);
        lemma_sqrt_floor_square(-v);
    }
}

/// The components of a unit vector lie in `[-SCALE, SCALE]`.
pub proof fn lemma_unit_bounds(a: Vec3i)
    ensures
        v_in_bounds(v_unit(a), SCALE as int),
{
    if v_norm_sq(a) != 0 {
        lemma_norm_sq_nonneg(a);
        lemma_sqrt_floor_exists(v_norm_sq(a));
        let m = v_mag(a);
        assert(m >= 1) by {
            if m == 0 {
                assert(v_norm_sq(a) < (0 + 1) * (0 + 1));
            }
        };
        lemma_comp_le_mag(a);
        lemma_unit_bounds_one(a.x, m);
        lemma_unit_bounds_one(a.y, m);
        lemma_unit_bounds_one(a.z, m);
    }
}

proof fn lemma_unit_bounds_one(v: int, m: int)
    requires
        m >= 1,
        -m <= v <= m,
    ensures
        -(SCALE as int) <= tdiv(v * SCALE, m) <= SCALE as int,
{
    assert(-((SCALE as int) * m) <= v * (SCALE as int) <= (SCALE as int) * m) by (nonlinear_arith)
        requires
            -m <= v <= m,
    ;
    lemma_tdiv_bound(v * SCALE, m, SCALE as int);
}

/// A scaled vector with bounded input and scalar is bounded.
pub proof fn lemma_scale_bound(v: Vec3i, s: int, cv: int, cs: int, c: int)
    requires
        v_in_bounds(v, cv),
        -cs <= s <= cs,
        0 <= cv,
        0 <= cs,
        0 <= c,
        cv * cs <= c * (SCALE as int),
    ensures
        v_in_bounds(v_scale(v, s), c),
{
    lemma_mul_abs_bound(v.x, s, cv, cs);
    lemma_mul_abs_bound(v.y, s, cv, cs);
    lemma_mul_abs_bound(v.z, s, cv, cs);
    lemma_fmul_bound(v.x, s, c);
    lemma_fmul_bound(v.y, s, c);
    lemma_fmul_bound(v.z, s, c);
}

/// A cross product of vectors bounded by `ca` and `cb` has components
/// bounded by twice `chalf`, where `chalf` scaled up dominates the wide
/// products.
pub proof fn lemma_cross_bound(a: Vec3i, b: Vec3i, ca: int, cb: int, chalf: int)
    requires
        v_in_bounds(a, ca),
        v_in_bounds(b, cb),
        0 <= ca,
        0 <= cb,
        0 <= chalf,
        ca * cb <= chalf * (SCALE as int),
    ensures
        v_in_bounds(v_cross(a, b), 2 * chalf),
{
    lemma_cross_bound_term(a.y, b.z, ca, cb, chalf);
    lemma_cross_bound_term(a.z, b.y, ca, cb, chalf);
    lemma_cross_bound_term(a.z, b.x, ca, cb, chalf);
    lemma_cross_bound_term(a.x, b.z, ca, cb, chalf);
    lemma_cross_bound_term(a.x, b.y, ca, cb, chalf);
    lemma_cross_bound_term(a.y, b.x, ca, cb, chalf);
}

proof fn lemma_cross_bound_term(x: int, y: int, cx: int, cy: int, chalf: int)
    requires
        -cx <= x <= cx,
        -cy <= y <= cy,
        0 <= cx,
        0 <= cy,
        0 <= chalf,
        cx * cy <= chalf * (SCALE as int),
    ensures
        -chalf <= fmul(x, y) <= chalf,
{
    lemma_mul_abs_bound(x, y, cx, cy);
    lemma_fmul_bound(x, y, chalf);
}

proof fn lemma_iabs_mul_nonneg(a: int, k: int)
    requires
        k >= 0,
    ensures
        iabs(a * k) == iabs(a) * k,
{
    if a >= 0 {
        assert(a * k >= 0) by (nonlinear_arith)
            requires
                a >= 0,
                k >= 0,
        ;
    } else {
        assert(a * k <= 0 && -(a * k) == (-a) * k) by (nonlinear_arith)
            requires
                a <= 0,
                k >= 0,
        ;
    }
}

/// One component through normalise-then-rescale: `ui` is `wi` scaled to
/// unit length, `ni` is `ui` rescaled by `m`; each step loses less than
/// one unit of its divisor.
proof fn lemma_unit_scale_comp(wi: int, ui: int, ni: int, mw: int, m: int)
    requires
        mw >= 1,
        m >= 0,
        ui == tdiv(wi * (SCALE as int), mw),
        ni == tdiv(ui * m, SCALE as int),
    ensures
        (ui * ui) * (mw * mw) <= (wi * wi) * ((SCALE as int) * (SCALE as int)),
        (wi * wi) * ((SCALE as int) * (SCALE as int)) - 2 * ((iabs(wi) * (SCALE as int)) * mw)
            <= (ui * ui) * (mw * mw),
        (ni * ni) * ((SCALE as int) * (SCALE as int)) <= (ui * ui) * (m * m),
        (ui * ui) * (m * m) - 2 * ((iabs(ui) * m) * (SCALE as int))
            <= (ni * ni) * ((SCALE as int) * (SCALE as int)),
{
    let s = SCALE as int;
    lemma_tdiv_abs(wi * s, mw);
    lemma_iabs_mul_nonneg(wi, s);
    lemma_tdiv_abs(ui * m, s);
    lemma_iabs_mul_nonneg(ui, m);
    lemma_abs_sq_le(ui, mw, wi, s);
    lemma_abs_sq_lower(ui, mw, wi, s);
    lemma_abs_sq_le(ni, s, ui, m);
    lemma_abs_sq_lower(ni, s, ui, m);
}

/// Rescaling the unit vector of a non-zero `w` by a length `m` gives a
/// vector whose squared length is `m * m` up to rounding: the excess times
/// `|w|` is at most `2 m^2`, and the shortfall times `SCALE` is at most
/// `6 m^2 + 6 m SCALE`.
pub proof fn lemma_scaled_unit_norm_sq(w: Vec3i, m: int)
    requires
        v_norm_sq(w) != 0,
        0 <= m,
    ensures
        (v_norm_sq(v_scale(v_unit(w), m)) - m * m) * v_mag(w) <= 2 * (m * m),
        (m * m - v_norm_sq(v_scale(v_unit(w), m))) * (SCALE as int)
            <= 6 * (m * m) + 6 * (m * (SCALE as int)),
{
    let s = SCALE as int;
    lemma_norm_sq_nonneg(w);
    lemma_sqrt_floor_exists(v_norm_sq(w));
    let mw = v_mag(w);
    let cc = v_norm_sq(w);
    assert(mw >= 1) by {
        if mw == 0 {
            assert(cc < (0 + 1) * (0 + 1));
        }
    };
    let u = v_unit(w);
    let n = v_scale(u, m);
    lemma_unit_bounds(w);
    lemma_comp_le_mag(w);
    lemma_norm_sq_nonneg(u);
    lemma_norm_sq_nonneg(n);
    lemma_unit_scale_comp(w.x, u.x, n.x, mw, m);
    lemma_unit_scale_comp(w.y, u.y, n.y, mw, m);
    lemma_unit_scale_comp(w.z, u.z, n.z, mw, m);
    let aa = v_norm_sq(n);
    let bb = v_norm_sq(u);
    assert(mw * mw >= 1 && cc >= mw * mw) by (nonlinear_arith)
        requires
            mw >= 1,
            mw * mw <= cc,
    ;
    assert(aa * (s * s) <= bb * (m * m)) by (nonlinear_arith)
        requires
            aa == n.x * n.x + n.y * n.y + n.z * n.z,
            bb == u.x * u.x + u.y * u.y + u.z * u.z,
            (n.x * n.x) * (s * s) <= (u.x * u.x) * (m * m),
            (n.y * n.y) * (s * s) <= (u.y * u.y) * (m * m),
            (n.z * n.z) * (s * s) <= (u.z * u.z) * (m * m),
    ;
    assert(bb * (mw * mw) <= cc * (s * s)) by (nonlinear_arith)
        requires
            bb == u.x * u.x + u.y * u.y + u.z * u.z,
            cc == w.x * w.x + w.y * w.y + w.z * w.z,
            (u.x * u.x) * (mw * mw) <= (w.x * w.x) * (s * s),
            (u.y * u.y) * (mw * mw) <= (w.y * w.y) * (s * s),
            (u.z * u.z) * (mw * mw) <= (w.z * w.z) * (s * s),
    ;
    assert(cc <= mw * mw + 2 * mw) by (nonlinear_arith)
        requires
            cc < (mw + 1) * (mw + 1),
    ;
    // Upper bound: chain the three inequalities and cancel the positive
    // factors one at a time.
    assert(aa * (s * s) * (mw * mw) <= bb * (m * m) * (mw * mw)) by (nonlinear_arith)
        requires
            aa * (s * s) <= bb * (m * m),
            mw * mw >= 1,
    ;
    assert(bb * (m * m) * (mw * mw) <= cc * (s * s) * (m * m)) by (nonlinear_arith)
        requires
            bb * (mw * mw) <= cc * (s * s),
            m * m >= 0,
    ;
    assert(cc * (s * s) * (m * m) <= (mw * mw + 2 * mw) * ((s * s) * (m * m))) by (nonlinear_arith)
        requires
            cc <= mw * mw + 2 * mw,
            s >= 1,
            m * m >= 0,
    ;
    assert(aa * (mw * mw) <= (mw * mw + 2 * mw) * (m * m)) by (nonlinear_arith)
        requires
            aa * (s * s) * (mw * mw) <= bb * (m * m) * (mw * mw),
            bb * (m * m) * (mw * mw) <= cc * (s * s) * (m * m),
            cc * (s * s) * (m * m) <= (mw * mw + 2 * mw) * ((s * s) * (m * m)),
            s >= 1,
    ;
    assert(aa * mw <= (mw + 2) * (m * m)) by (nonlinear_arith)
        requires
            aa * (mw * mw) <= (mw * mw + 2 * mw) * (m * m),
            mw >= 1,
    ;
    assert((aa - m * m) * mw <= 2 * (m * m)) by (nonlinear_arith)
        requires
            aa * mw <= (mw + 2) * (m * m),
    ;
    // Lower bound: the same chain with the truncation losses carried
    // along, then bounded by the component sums.
    let ww1 = iabs(w.x) + iabs(w.y) + iabs(w.z);
    let uu1 = iabs(u.x) + iabs(u.y) + iabs(u.z);
    assert(ww1 <= 3 * mw && ww1 >= 0);
    assert(uu1 <= 3 * s && uu1 >= 0);
    assert(cc * (s * s) == (w.x * w.x) * (s * s) + (w.y * w.y) * (s * s) + (w.z * w.z) * (s * s))
        by (nonlinear_arith)
        requires
            cc == w.x * w.x + w.y * w.y + w.z * w.z,
    ;
    assert(bb * (mw * mw) == (u.x * u.x) * (mw * mw) + (u.y * u.y) * (mw * mw) + (u.z * u.z) * (
    mw * mw)) by (nonlinear_arith)
        requires
            bb == u.x * u.x + u.y * u.y + u.z * u.z,
    ;
    assert((ww1 * s) * mw == (iabs(w.x) * s) * mw + (iabs(w.y) * s) * mw + (iabs(w.z) * s) * mw)
        by (nonlinear_arith)
        requires
            ww1 == iabs(w.x) + iabs(w.y) + iabs(w.z),
    ;
    assert(cc * (s * s) - 2 * ((ww1 * s) * mw) <= bb * (mw * mw));
    assert(bb * (mw * mw) >= (s * s) * (mw * mw) - 6 * (s * (mw * mw))) by (nonlinear_arith)
        requires
            cc * (s * s) - 2 * ((ww1 * s) * mw) <= bb * (mw * mw),
            cc >= mw * mw,
            ww1 <= 3 * mw,
            ww1 >= 0,
            s >= 1,
            mw >= 1,
    ;
    assert(bb >= s * s - 6 * s) by (nonlinear_arith)
        requires
            bb * (mw * mw) >= (s * s) * (mw * mw) - 6 * (s * (mw * mw)),
            mw >= 1,
    ;
    assert(aa * (s * s) == (n.x * n.x) * (s * s) + (n.y * n.y) * (s * s) + (n.z * n.z) * (s * s))
        by (nonlinear_arith)
        requires
            aa == n.x * n.x + n.y * n.y + n.z * n.z,
    ;
    assert(bb * (m * m) == (u.x * u.x) * (m * m) + (u.y * u.y) * (m * m) + (u.z * u.z) * (m * m))
        by (nonlinear_arith)
        requires
            bb == u.x * u.x + u.y * u.y + u.z * u.z,
    ;
    assert((uu1 * m) * s == (iabs(u.x) * m) * s + (iabs(u.y) * m) * s + (iabs(u.z) * m) * s)
        by (nonlinear_arith)
        requires
            uu1 == iabs(u.x) + iabs(u.y) + iabs(u.z),
    ;
    assert(bb * (m * m) - 2 * ((uu1 * m) * s) <= aa * (s * s));
    assert(aa * (s * s) >= (s * s) * (m * m) - 6 * (s * (m * m)) - 6 * ((m * s) * s))
        by (nonlinear_arith)
        requires
            bb * (m * m) - 2 * ((uu1 * m) * s) <= aa * (s * s),
            bb >= s * s - 6 * s,
            uu1 <= 3 * s,
            uu1 >= 0,
            m >= 0,
            s >= 1,
    ;
    assert((m * m - aa) * s <= 6 * (m * m) + 6 * (m * s)) by (nonlinear_arith)
        requires
            aa * (s * s) >= (s * s) * (m * m) - 6 * (s * (m * m)) - 6 * ((m * s) * s),
            s >= 1,
    ;
}

/// Componentwise sum.
pub(crate) fn add3(a: Vec3, b: Vec3) -> (r: Vec3)
    requires
        v_in_bounds(a@, 1152921504606846976),
        v_in_bounds(b@, 1152921504606846976),
    ensures
        r@ == v_add(a@, b@),
{
    Vec3 { x: a.x + b.x, y: a.y + b.y, z: a.z + b.z }
}

/// Componentwise difference.
pub(crate) fn sub3(a: Vec3, b: Vec3) -> (r: Vec3)
    requires
        v_in_bounds(a@, 1152921504606846976),
        v_in_bounds(b@, 1152921504606846976),
    ensures
        r@ == v_sub(a@, b@),
{
    Vec3 { x: a.x - b.x, y: a.y - b.y, z: a.z - b.z }
}

/// Scale by a fixed-point scalar.
pub(crate) fn scale3(v: Vec3, s: i64) -> (r: Vec3)
    requires
        v_in_bounds(v@, 17179869184),
        -281474976710656 <= s <= 281474976710656,
    ensures
        r@ == v_scale(v@, s as int),
{
    proof {
        lemma_mul_abs_bound(v@.x, s as int, 17179869184, 281474976710656);
        lemma_mul_abs_bound(v@.y, s as int, 17179869184, 281474976710656);
        lemma_mul_abs_bound(v@.z, s as int, 17179869184, 281474976710656);
    }
    Vec3 { x: fmul_fx(v.x, s), y: fmul_fx(v.y, s), z: fmul_fx(v.z, s) }
}

/// Cross product.
pub(crate) fn cross3(a: Vec3, b: Vec3) -> (r: Vec3)
    requires
        v_in_bounds(a@, 17179869184),
        v_in_bounds(b@, 17179869184),
    ensures
        r@ == v_cross(a@, b@),
{
    proof {
        lemma_cross_term(a@.y, b@.z);
        lemma_cross_term(a@.z, b@.y);
        lemma_cross_term(a@.z, b@.x);
        lemma_cross_term(a@.x, b@.z);
        lemma_cross_term(a@.x, b@.y);
        lemma_cross_term(a@.y, b@.x);
    }
    Vec3 {
        x: fmul_fx(a.y, b.z) - fmul_fx(a.z, b.y),
        y: fmul_fx(a.z, b.x) - fmul_fx(a.x, b.z),
        z: fmul_fx(a.x, b.y) - fmul_fx(a.y, b.x),
    }
}

proof fn lemma_cross_term(x: int, y: int)
    requires
        -17179869184 <= x <= 17179869184,
        -17179869184 <= y <= 17179869184,
    ensures
        -295147905179352825856 <= x * y <= 295147905179352825856,
        -281474976710656 <= fmul(x, y) <= 281474976710656,
{
    lemma_mul_abs_bound(x, y, 17179869184, 17179869184);
    lemma_fmul_bound(x, y, 281474976710656);
}

/// Dot product, rescaled back down.
pub(crate) fn dot3(a: Vec3, b: Vec3) -> (r: i64)
    requires
        v_in_bounds(a@, 2097152),
        v_in_bounds(b@, 1125899906842624),
    ensures
        r == v_dot(a@, b@),
{
    proof {
        lemma_mul_abs_bound(a@.x, b@.x, 2097152, 1125899906842624);
        lemma_mul_abs_bound(a@.y, b@.y, 2097152, 1125899906842624);
        lemma_mul_abs_bound(a@.z, b@.z, 2097152, 1125899906842624);
    }
    let p: i128 = (a.x as i128) * (b.x as i128) + (a.y as i128) * (b.y as i128)
        + (a.z as i128) * (b.z as i128);
    let q: i128 = div_fx(p, SCALE as i128);
    proof {
        lemma_tdiv_bound(p as int, SCALE as int, 9007199254740992);
    }
    q as i64
}

/// Fixed-point length.
pub(crate) fn mag3(v: Vec3) -> (r: i64)
    requires
        v_in_bounds(v@, 18014398509481984),
    ensures
        r == v_mag(v@),
        0 <= r < 72057594037927936,
{
    proof {
        lemma_norm_sq_nonneg(v@);
        lemma_mul_abs_bound(v@.x, v@.x, 18014398509481984, 18014398509481984);
        lemma_mul_abs_bound(v@.y, v@.y, 18014398509481984, 18014398509481984);
        lemma_mul_abs_bound(v@.z, v@.z, 18014398509481984, 18014398509481984);
    }
    let ns: i128 = (v.x as i128) * (v.x as i128) + (v.y as i128) * (v.y as i128)
        + (v.z as i128) * (v.z as i128);
    let r: u128 = isqrt_fx(ns as u128);
    r as i64
}

/// Unit vector in the direction of `v`; zero stays zero.
pub(crate) fn unit3(v: Vec3) -> (r: Vec3)
    requires
        v_in_bounds(v@, 18014398509481984),
    ensures
        r@ == v_unit(v@),
        v_in_bounds(r@, SCALE as int),
{
    let m: i64 = mag3(v);
    proof {
        lemma_norm_sq_nonneg(v@);
        lemma_sqrt_floor_exists(v_norm_sq(v@));
        lemma_unit_bounds(v@);
        lemma_comp_le_mag(v@);
    }
    if m == 0 {
        proof {
            assert(v_norm_sq(v@) < (0 + 1) * (0 + 1));
        }
        Vec3 { x: 0, y: 0, z: 0 }
    } else {
        proof {
            if v_norm_sq(v@) == 0 {
                assert(m as int <= 0) by (nonlinear_arith)
                    requires
                        (m as int) * (m as int) <= 0,
                        m as int >= 0,
                ;
            }
            lemma_mul_abs_bound(v@.x, SCALE as int, 18014398509481984, SCALE as int);
            lemma_mul_abs_bound(v@.y, SCALE as int, 18014398509481984, SCALE as int);
            lemma_mul_abs_bound(v@.z, SCALE as int, 18014398509481984, SCALE as int);
        }
        let x: i128 = div_fx((v.x as i128) * (SCALE as i128), m as i128);
        let y: i128 = div_fx((v.y as i128) * (SCALE as i128), m as i128);
        let z: i128 = div_fx((v.z as i128) * (SCALE as i128), m as i128);
        Vec3 { x: x as i64, y: y as i64, z: z as i64 }
    }
}

} // verus!
