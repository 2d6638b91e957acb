//! The orbit camera: eye, look-at target and up vector, plus fixed
//! projection parameters, and the view-projection matrix built from them.
//!
//! The matrix is right-handed with a zero-to-one depth range, laid out in
//! columns as the consuming shader expects. All entries are fixed-point
//! scalars; the contract of [`Camera::build_view_projection_matrix`] pins
//! every entry to the spec-level model.

use crate::fixed::{
    fmul, fmul_fx, div_fx, is_sqrt_floor, lemma_sqrt_floor_exists, lemma_sqrt_floor_unique,
    lemma_tdiv_abs,
    lemma_tdiv_bound, sqrt_floor, tdiv, SCALE,
};
use crate::vec3::{
    cross3, dot3, lemma_cross_bound, lemma_fmul_bound, lemma_mul_abs_bound, sub3, unit3,
    v_cross, v_dot, v_in_bounds, v_sub, v_unit, v_zero, Vec3, Vec3i,
};
use vstd::prelude::*;

verus! {

/// Vertical field of view of the projection, in fixed-point degrees.
pub const FOVY_FX: i64 = 47185920;

/// Near plane distance (one tenth of a world unit, fixed-point).
pub const ZNEAR_FX: i64 = 104858;

/// Far plane distance (one hundred world units, fixed-point).
pub const ZFAR_FX: i64 = 104857600;

/// Cotangent of half the field of view, fixed-point: for the 45-degree
/// field this is `1 + sqrt 2`, the focal scale of the projection.
pub const FOCAL_FX: i64 = 2531486;

/// Smallest accepted aspect ratio (1/64 in world terms).
pub const ASPECT_MIN: i64 = 16384;

/// Largest accepted aspect ratio.
pub const ASPECT_MAX: i64 = 1099511627776;

/// Bound on eye and target components under which every step of the
/// camera arithmetic fits its 64-bit scalars.
pub const COORD_MAX: i64 = 17592186044416;

/// Bound on up-vector components.
pub const UP_MAX: i64 = 4294967296;

/// A column of a 4x4 fixed-point matrix.
#[derive(Clone, Copy, Debug, PartialEq, Eq, Structural)]
pub struct Vec4 {
    pub x: i64,
    pub y: i64,
    pub z: i64,
    pub w: i64,
}

/// Spec-level column with unbounded integer entries.
pub ghost struct Vec4i {
    pub x: int,
    pub y: int,
    pub z: int,
    pub w: int,
}

impl View for Vec4 {
    type V = Vec4i;

    open spec fn view(&self) -> Vec4i {
        Vec4i { x: self.x as int, y: self.y as int, z: self.z as int, w: self.w as int }
    }
}

/// A 4x4 fixed-point matrix, stored as its four columns.
#[derive(Clone, Copy, Debug, PartialEq, Eq, Structural)]
pub struct Mat4 {
    pub x_axis: Vec4,
    pub y_axis: Vec4,
    pub z_axis: Vec4,
    pub w_axis: Vec4,
}

/// Spec-level matrix.
pub ghost struct Mat4i {
    pub x_axis: Vec4i,
    pub y_axis: Vec4i,
    pub z_axis: Vec4i,
    pub w_axis: Vec4i,
}

impl View for Mat4 {
    type V = Mat4i;

    open spec fn view(&self) -> Mat4i {
        Mat4i {
            x_axis: self.x_axis@,
            y_axis: self.y_axis@,
            z_axis: self.z_axis@,
            w_axis: self.w_axis@,
        }
    }
}

pub open spec fn v4_in_bounds(v: Vec4i, c: int) -> bool {
    &&& -c <= v.x <= c
    &&& -c <= v.y <= c
    &&& -c <= v.z <= c
    &&& -c <= v.w <= c
}

pub open spec fn m4_in_bounds(m: Mat4i, c: int) -> bool {
    &&& v4_in_bounds(m.x_axis, c)
    &&& v4_in_bounds(m.y_axis, c)
    &&& v4_in_bounds(m.z_axis, c)
    &&& v4_in_bounds(m.w_axis, c)
}

/// The right-handed look-at matrix: rows are the camera basis (side, up,
/// negated forward), the last column carries the eye projected onto it.
pub open spec fn view_matrix_spec(eye: Vec3i, target: Vec3i, up: Vec3i) -> Mat4i {
    let f = v_unit(v_sub(target, eye));
    let s = v_unit(v_cross(f, up));
    let u = v_cross(s, f);
    Mat4i {
        x_axis: Vec4i { x: s.x, y: u.x, z: -f.x, w: 0 },
        y_axis: Vec4i { x: s.y, y: u.y, z: -f.y, w: 0 },
        z_axis: Vec4i { x: s.z, y: u.z, z: -f.z, w: 0 },
        w_axis: Vec4i {
            x: -v_dot(s, eye),
            y: -v_dot(u, eye),
            z: v_dot(f, eye),
            w: SCALE as int,
        },
    }
}

/// The right-handed perspective matrix with zero-to-one depth range.
pub open spec fn projection_spec(aspect: int, znear: int, zfar: int) -> Mat4i {
    let h = FOCAL_FX as int;
    let r = -tdiv(zfar * SCALE, zfar - znear);
    Mat4i {
        x_axis: Vec4i { x: tdiv(h * SCALE, aspect), y: 0, z: 0, w: 0 },
        y_axis: Vec4i { x: 0, y: h, z: 0, w: 0 },
        z_axis: Vec4i { x: 0, y: 0, z: r, w: -(SCALE as int) },
        w_axis: Vec4i { x: 0, y: 0, z: fmul(r, znear), w: 0 },
    }
}

/// A matrix applied to a column vector.
pub open spec fn transform4_spec(m: Mat4i, v: Vec4i) -> Vec4i {
    Vec4i {
        x: fmul(m.x_axis.x, v.x) + fmul(m.y_axis.x, v.y) + fmul(m.z_axis.x, v.z)
            + fmul(m.w_axis.x, v.w),
        y: fmul(m.x_axis.y, v.x) + fmul(m.y_axis.y, v.y) + fmul(m.z_axis.y, v.z)
            + fmul(m.w_axis.y, v.w),
        z: fmul(m.x_axis.z, v.x) + fmul(m.y_axis.z, v.y) + fmul(m.z_axis.z, v.z)
            + fmul(m.w_axis.z, v.w),
        w: fmul(m.x_axis.w, v.x) + fmul(m.y_axis.w, v.y) + fmul(m.z_axis.w, v.z)
            + fmul(m.w_axis.w, v.w),
    }
}

/// Matrix product, column by column.
pub open spec fn mat_mul_spec(a: Mat4i, b: Mat4i) -> Mat4i {
    Mat4i {
        x_axis: transform4_spec(a, b.x_axis),
        y_axis: transform4_spec(a, b.y_axis),
        z_axis: transform4_spec(a, b.z_axis),
        w_axis: transform4_spec(a, b.w_axis),
    }
}

/// The orbit camera.
pub struct Camera {
    pub eye: Vec3,
    pub target: Vec3,
    pub up: Vec3,
    pub aspect: i64,
    pub fovy: i64,
    pub znear: i64,
    pub zfar: i64,
}

/// Spec-level camera state.
pub ghost struct CameraV {
    pub eye: Vec3i,
    pub target: Vec3i,
    pub up: Vec3i,
    pub aspect: int,
    pub fovy: int,
    pub znear: int,
    pub zfar: int,
}

impl View for Camera {
    type V = CameraV;

    open spec fn view(&self) -> CameraV {
        CameraV {
            eye: self.eye@,
            target: self.target@,
            up: self.up@,
            aspect: self.aspect as int,
            fovy: self.fovy as int,
            znear: self.znear as int,
            zfar: self.zfar as int,
        }
    }
}

/// An aspect ratio forced into the accepted range.
pub open spec fn clamp_aspect(a: int) -> int {
    if a < ASPECT_MIN as int {
        ASPECT_MIN as int
    } else if a > ASPECT_MAX as int {
        ASPECT_MAX as int
    } else {
        a
    }
}

/// The fixed-point aspect ratio of a surface, width over height, clamped
/// into the accepted range.
pub fn aspect_from_size(width: u32, height: u32) -> (r: i64)
    requires
        1 <= width,
        1 <= height,
    ensures
        r == clamp_aspect(tdiv((width as int) * (SCALE as int), height as int)),
        ASPECT_MIN <= r <= ASPECT_MAX,
{
    proof {
        lemma_mul_abs_bound(width as int, SCALE as int, 4294967295, 1048576);
    }
    let num: i128 = (width as i128) * (SCALE as i128);
    proof {
        lemma_tdiv_bound(num as int, height as int, 4503599627370496);
    }
    let q: i128 = div_fx(num, height as i128);
    let q64: i64 = q as i64;
    if q64 < ASPECT_MIN {
        ASPECT_MIN
    } else if q64 > ASPECT_MAX {
        ASPECT_MAX
    } else {
        q64
    }
}

/// The focal scale is the fixed-point cotangent of half the field of view:
/// for the 45-degree field, one plus the rounded-down square root of two.
pub proof fn lemma_focal_value()
    ensures
        FOCAL_FX as int == SCALE as int + sqrt_floor(2 * (SCALE as int) * (SCALE as int)),
{
    assert(is_sqrt_floor(2 * (SCALE as int) * (SCALE as int), 1482910));
    lemma_sqrt_floor_exists(2 * (SCALE as int) * (SCALE as int));
    lemma_sqrt_floor_unique(
        2 * (SCALE as int) * (SCALE as int),
        sqrt_floor(2 * (SCALE as int) * (SCALE as int)),
        1482910,
    );
}

/// Aspect round-trip: the projection's horizontal scale term is the focal
/// scale divided by the aspect ratio, so multiplying it back by the aspect
/// recovers the focal constant to within one aspect unit — reading the
/// aspect back off the matrix loses only rounding.
pub proof fn lemma_aspect_roundtrip(aspect: int)
    requires
        aspect >= 1,
    ensures
        ({
            let m00 = projection_spec(aspect, ZNEAR_FX as int, ZFAR_FX as int).x_axis.x;
            &&& 0 <= m00
            &&& m00 * aspect <= (FOCAL_FX as int) * (SCALE as int)
            &&& (FOCAL_FX as int) * (SCALE as int) < m00 * aspect + aspect
        }),
{
    let h = (FOCAL_FX as int) * (SCALE as int);
    lemma_tdiv_abs(h, aspect);
    assert(0 <= h * aspect && h <= h * aspect) by (nonlinear_arith)
        requires
            h >= 0,
            aspect >= 1,
    ;
    lemma_tdiv_bound(h, aspect, h);
}

/// The full view-projection matrix of a camera.
pub open spec fn view_projection_spec(c: CameraV) -> Mat4i {
    mat_mul_spec(
        projection_spec(c.aspect, c.znear, c.zfar),
        view_matrix_spec(c.eye, c.target, c.up),
    )
}

impl Camera {
    /// Well-formedness: the projection parameters are the ones the
    /// constructor fixes, and target and up are bounded, with up non-zero.
    pub open spec fn wf(self) -> bool {
        &&& self@.fovy == FOVY_FX as int
        &&& self@.znear == ZNEAR_FX as int
        &&& self@.zfar == ZFAR_FX as int
        &&& ASPECT_MIN as int <= self@.aspect <= ASPECT_MAX as int
        &&& v_in_bounds(self@.target, COORD_MAX as int)
        &&& v_in_bounds(self@.up, UP_MAX as int)
        &&& self@.up != v_zero()
    }

    /// A camera one unit up and two back from the origin, looking at the
    /// origin, with the world up axis and the given aspect ratio.
    pub fn new(aspect: i64) -> (r: Camera)
        requires
            ASPECT_MIN <= aspect <= ASPECT_MAX,
        ensures
            r.wf(),
            r@.eye == (Vec3i { x: 0, y: SCALE as int, z: 2 * SCALE }),
            r@.target == v_zero(),
            r@.up == (Vec3i { x: 0, y: SCALE as int, z: 0 }),
            r@.aspect == aspect as int,
    {
        Camera {
            eye: Vec3 { x: 0, y: SCALE, z: 2 * SCALE },
            target: Vec3 { x: 0, y: 0, z: 0 },
            up: Vec3 { x: 0, y: SCALE, z: 0 },
            aspect,
            fovy: FOVY_FX,
            znear: ZNEAR_FX,
            zfar: ZFAR_FX,
        }
    }

    /// Build `projection * view` for the current state.
    pub fn build_view_projection_matrix(&self) -> (r: Mat4)
        requires
            self.wf(),
            v_in_bounds(self@.eye, COORD_MAX as int),
        ensures
            r@ == view_projection_spec(self@),
    {
        let f = unit3(sub3(self.target, self.eye));
        let fxu = cross3(f, self.up);
        proof {
            lemma_cross_bound(f@, self.up@, SCALE as int, UP_MAX as int, 4294967296);
        }
        let s = unit3(fxu);
        let u = cross3(s, f);
        proof {
            lemma_cross_unit_bound(s@, f@);
            lemma_dot_eye_bound(s@, self@.eye);
            lemma_dot_eye_bound(u@, self@.eye);
            lemma_dot_eye_bound(f@, self@.eye);
        }
        let tx: i64 = -dot3(s, self.eye);
        let ty: i64 = -dot3(u, self.eye);
        let tz: i64 = dot3(f, self.eye);
        let view = Mat4 {
            x_axis: Vec4 { x: s.x, y: u.x, z: -f.x, w: 0 },
            y_axis: Vec4 { x: s.y, y: u.y, z: -f.y, w: 0 },
            z_axis: Vec4 { x: s.z, y: u.z, z: -f.z, w: 0 },
            w_axis: Vec4 { x: tx, y: ty, z: tz, w: SCALE },
        };
        proof {
            lemma_tdiv_bound((FOCAL_FX as int) * (SCALE as int), self@.aspect, 268435456);
            lemma_tdiv_bound((ZFAR_FX as int) * (SCALE as int), (ZFAR_FX - ZNEAR_FX) as int, 2097152);
        }
        let pw: i64 = div_fx((FOCAL_FX as i128) * (SCALE as i128), self.aspect as i128) as i64;
        let pr: i64 = -(div_fx((ZFAR_FX as i128) * (SCALE as i128), (ZFAR_FX - ZNEAR_FX) as i128)
            as i64);
        proof {
            lemma_mul_abs_bound(pr as int, ZNEAR_FX as int, 2097152, ZNEAR_FX as int);
            lemma_fmul_bound(pr as int, ZNEAR_FX as int, 268435456);
        }
        let pm32: i64 = fmul_fx(pr, ZNEAR_FX);
        let proj = Mat4 {
            x_axis: Vec4 { x: pw, y: 0, z: 0, w: 0 },
            y_axis: Vec4 { x: 0, y: FOCAL_FX, z: 0, w: 0 },
            z_axis: Vec4 { x: 0, y: 0, z: pr, w: -SCALE },
            w_axis: Vec4 { x: 0, y: 0, z: pm32, w: 0 },
        };
        mat_mul(proj, view)
    }
}

/// The cross product of two unit-bounded vectors is bounded by twice the
/// scale.
proof fn lemma_cross_unit_bound(a: Vec3i, b: Vec3i)
    requires
        v_in_bounds(a, SCALE as int),
        v_in_bounds(b, SCALE as int),
    ensures
        v_in_bounds(v_cross(a, b), 2097152),
{
    lemma_cross_pair(a.y, b.z, a.z, b.y);
    lemma_cross_pair(a.z, b.x, a.x, b.z);
    lemma_cross_pair(a.x, b.y, a.y, b.x);
}

proof fn lemma_cross_pair(p: int, q: int, r: int, t: int)
    requires
        -(SCALE as int) <= p <= SCALE as int,
        -(SCALE as int) <= q <= SCALE as int,
        -(SCALE as int) <= r <= SCALE as int,
        -(SCALE as int) <= t <= SCALE as int,
    ensures
        -2097152 <= fmul(p, q) - fmul(r, t) <= 2097152,
{
    lemma_mul_abs_bound(p, q, SCALE as int, SCALE as int);
    lemma_mul_abs_bound(r, t, SCALE as int, SCALE as int);
    lemma_fmul_bound(p, q, SCALE as int);
    lemma_fmul_bound(r, t, SCALE as int);
}

/// The rescaled dot product of a basis vector with a bounded eye is
/// bounded well inside the matrix arithmetic's budget.
proof fn lemma_dot_eye_bound(a: Vec3i, eye: Vec3i)
    requires
        v_in_bounds(a, 2097152),
        v_in_bounds(eye, COORD_MAX as int),
    ensures
        -140737488355328 <= v_dot(a, eye) <= 140737488355328,
{
    lemma_mul_abs_bound(a.x, eye.x, 2097152, COORD_MAX as int);
    lemma_mul_abs_bound(a.y, eye.y, 2097152, COORD_MAX as int);
    lemma_mul_abs_bound(a.z, eye.z, 2097152, COORD_MAX as int);
    lemma_tdiv_bound(
        a.x * eye.x + a.y * eye.y + a.z * eye.z,
        SCALE as int,
        140737488355328,
    );
}

/// Apply a matrix to a column.
fn transform4(m: &Mat4, v: Vec4) -> (r: Vec4)
    requires
        m4_in_bounds(m@, 268435456),
        v4_in_bounds(v@, 1125899906842624),
    ensures
        r@ == transform4_spec(m@, v@),
{
    proof {
        lemma_t4_col(m@.x_axis, v@.x);
        lemma_t4_col(m@.y_axis, v@.y);
        lemma_t4_col(m@.z_axis, v@.z);
        lemma_t4_col(m@.w_axis, v@.w);
    }
    Vec4 {
        x: fmul_fx(m.x_axis.x, v.x) + fmul_fx(m.y_axis.x, v.y) + fmul_fx(m.z_axis.x, v.z)
            + fmul_fx(m.w_axis.x, v.w),
        y: fmul_fx(m.x_axis.y, v.x) + fmul_fx(m.y_axis.y, v.y) + fmul_fx(m.z_axis.y, v.z)
            + fmul_fx(m.w_axis.y, v.w),
        z: fmul_fx(m.x_axis.z, v.x) + fmul_fx(m.y_axis.z, v.y) + fmul_fx(m.z_axis.z, v.z)
            + fmul_fx(m.w_axis.z, v.w),
        w: fmul_fx(m.x_axis.w, v.x) + fmul_fx(m.y_axis.w, v.y) + fmul_fx(m.z_axis.w, v.z)
            + fmul_fx(m.w_axis.w, v.w),
    }
}

proof fn lemma_t4_col(col: Vec4i, s: int)
    requires
        v4_in_bounds(col, 268435456),
        -1125899906842624 <= s <= 1125899906842624,
    ensures
        -302231454903657293676544 <= col.x * s <= 302231454903657293676544,
        -302231454903657293676544 <= col.y * s <= 302231454903657293676544,
        -302231454903657293676544 <= col.z * s <= 302231454903657293676544,
        -302231454903657293676544 <= col.w * s <= 302231454903657293676544,
        -288230376151711744 <= fmul(col.x, s) <= 288230376151711744,
        -288230376151711744 <= fmul(col.y, s) <= 288230376151711744,
        -288230376151711744 <= fmul(col.z, s) <= 288230376151711744,
        -288230376151711744 <= fmul(col.w, s) <= 288230376151711744,
{
    lemma_mul_abs_bound(col.x, s, 268435456, 1125899906842624);
    lemma_mul_abs_bound(col.y, s, 268435456, 1125899906842624);
    lemma_mul_abs_bound(col.z, s, 268435456, 1125899906842624);
    lemma_mul_abs_bound(col.w, s, 268435456, 1125899906842624);
    lemma_fmul_bound(col.x, s, 288230376151711744);
    lemma_fmul_bound(col.y, s, 288230376151711744);
    lemma_fmul_bound(col.z, s, 288230376151711744);
    lemma_fmul_bound(col.w, s, 288230376151711744);
}

/// Matrix product.
fn mat_mul(a: Mat4, b: Mat4) -> (r: Mat4)
    requires
        m4_in_bounds(a@, 268435456),
        m4_in_bounds(b@, 1125899906842624),
    ensures
        r@ == mat_mul_spec(a@, b@),
{
    Mat4 {
        x_axis: transform4(&a, b.x_axis),
        y_axis: transform4(&a, b.y_axis),
        z_axis: transform4(&a, b.z_axis),
        w_axis: transform4(&a, b.w_axis),
    }
}

} // verus!
