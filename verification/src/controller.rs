//! The camera controller: four directional flags fed by key events, and the
//! per-tick update that moves the camera's eye.
//!
//! The update first walks the eye along the view direction (forward only
//! while more than one step from the target; backward unconditionally),
//! then orbits it sideways around the target on the sphere through the
//! current eye. [`eye_after_update`] is the exact spec-level model of one
//! tick, and the idle and forward-guard laws are proved against it.

use crate::camera::{Camera, CameraV, COORD_MAX};
use crate::events::{
    is_backward_key, is_camera_key, is_forward_key, is_left_key, is_right_key, InputEvent,
    KeyCode,
};
use crate::fixed::{lemma_sqrt_floor_exists, SCALE};
use crate::vec3::{
    add3, cross3, lemma_cross_bound, lemma_mag_bounds, lemma_norm_sq_nonneg, lemma_scale_bound,
    lemma_scaled_unit_norm_sq, mag3, scale3, sub3, unit3, v_add, v_cross, v_in_bounds, v_mag,
    v_norm_sq, v_scale, v_sub, v_unit, Vec3i,
};
use vstd::prelude::*;

verus! {

/// Bound on the controller's speed under which every step of the update
/// arithmetic fits its 64-bit scalars.
pub const SPEED_MAX: i64 = 1099511627776;

/// Directional input state and the per-tick step size.
pub struct CameraController {
    speed: i64,
    is_forward_pressed: bool,
    is_backward_pressed: bool,
    is_left_pressed: bool,
    is_right_pressed: bool,
}

/// Spec-level controller state.
pub ghost struct ControllerV {
    pub speed: int,
    pub forward: bool,
    pub backward: bool,
    pub left: bool,
    pub right: bool,
}

impl View for CameraController {
    type V = ControllerV;

    closed spec fn view(&self) -> ControllerV {
        ControllerV {
            speed: self.speed as int,
            forward: self.is_forward_pressed,
            backward: self.is_backward_pressed,
            left: self.is_left_pressed,
            right: self.is_right_pressed,
        }
    }
}

/// The flag state after one key event: a recognised key sets or clears its
/// flag, everything else changes nothing.
pub open spec fn flags_after(c: ControllerV, e: InputEvent) -> ControllerV {
    match e {
        InputEvent::KeyPress(k) => flag_set(c, k, true),
        InputEvent::KeyRelease(k) => flag_set(c, k, false),
        _ => c,
    }
}

pub open spec fn flag_set(c: ControllerV, k: KeyCode, pressed: bool) -> ControllerV {
    if is_forward_key(k) {
        ControllerV { forward: pressed, ..c }
    } else if is_left_key(k) {
        ControllerV { left: pressed, ..c }
    } else if is_backward_key(k) {
        ControllerV { backward: pressed, ..c }
    } else if is_right_key(k) {
        ControllerV { right: pressed, ..c }
    } else {
        c
    }
}

/// The eye after the forward/backward phase: one step along the unit view
/// direction, forward only while the distance to the target exceeds the
/// step, backward unconditionally.
pub open spec fn eye_after_axial(c: ControllerV, cam: CameraV) -> Vec3i {
    let fwd = v_sub(cam.target, cam.eye);
    let step = v_scale(v_unit(fwd), c.speed);
    let e1 = if c.forward && v_mag(fwd) > c.speed {
        v_add(cam.eye, step)
    } else {
        cam.eye
    };
    if c.backward {
        v_sub(e1, step)
    } else {
        e1
    }
}

/// The eye after a full tick: the axial phase, then the orbit strafe, which
/// re-normalises the swung view direction and rescales it by the distance
/// left after the axial phase, so the eye stays on that sphere around the
/// target. A left press computes from the same post-axial state as a right
/// press and so wins when both are held.
pub open spec fn eye_after_update(c: ControllerV, cam: CameraV) -> Vec3i {
    let right = v_cross(v_unit(v_sub(cam.target, cam.eye)), cam.up);
    let swing = v_scale(right, c.speed);
    let e2 = eye_after_axial(c, cam);
    let fwd2 = v_sub(cam.target, e2);
    let mag2 = v_mag(fwd2);
    let e3 = if c.right {
        v_sub(cam.target, v_scale(v_unit(v_add(fwd2, swing)), mag2))
    } else {
        e2
    };
    if c.left {
        v_sub(cam.target, v_scale(v_unit(v_sub(fwd2, swing)), mag2))
    } else {
        e3
    }
}

impl CameraController {
    /// A controller with the given fixed-point step size and no key held.
    pub fn new(speed: i64) -> (r: CameraController)
        ensures
            r@ == (ControllerV {
                speed: speed as int,
                forward: false,
                backward: false,
                left: false,
                right: false,
            }),
    {
        CameraController {
            speed,
            is_forward_pressed: false,
            is_backward_pressed: false,
            is_left_pressed: false,
            is_right_pressed: false,
        }
    }

    /// Feed one event; a camera key updates its flag and is consumed.
    pub fn process_events(&mut self, event: &InputEvent) -> (handled: bool)
        ensures
            final(self)@ == flags_after(old(self)@, *event),
            handled == match *event {
                InputEvent::KeyPress(k) => is_camera_key(k),
                InputEvent::KeyRelease(k) => is_camera_key(k),
                _ => false,
            },
    {
        match event {
            InputEvent::KeyPress(k) => self.set_key(*k, true),
            InputEvent::KeyRelease(k) => self.set_key(*k, false),
            _ => false,
        }
    }

    fn set_key(&mut self, k: KeyCode, pressed: bool) -> (handled: bool)
        ensures
            final(self)@ == flag_set(old(self)@, k, pressed),
            handled == is_camera_key(k),
    {
        match k {
            KeyCode::KeyW | KeyCode::ArrowUp => {
                self.is_forward_pressed = pressed;
                true
            },
            KeyCode::KeyA | KeyCode::ArrowLeft => {
                self.is_left_pressed = pressed;
                true
            },
            KeyCode::KeyS | KeyCode::ArrowDown => {
                self.is_backward_pressed = pressed;
                true
            },
            KeyCode::KeyD | KeyCode::ArrowRight => {
                self.is_right_pressed = pressed;
                true
            },
            _ => false,
        }
    }

    /// One tick: move the camera's eye by the held flags. Only the eye
    /// changes; the contract pins it to the spec-level model.
    pub fn update_camera(&self, camera: &mut Camera)
        requires
            old(camera).wf(),
            v_in_bounds(old(camera)@.eye, COORD_MAX as int),
            -SPEED_MAX <= self@.speed <= SPEED_MAX,
        ensures
            final(camera)@ == (CameraV {
                eye: eye_after_update(self@, old(camera)@),
                ..old(camera)@
            }),
            final(camera).wf(),
    {
        let fwd = sub3(camera.target, camera.eye);
        let dir = unit3(fwd);
        let mag = mag3(fwd);
        let step = scale3(dir, self.speed);
        proof {
            lemma_scale_bound(dir@, self@.speed, SCALE as int, SPEED_MAX as int, SPEED_MAX as int);
        }
        if self.is_forward_pressed && mag > self.speed {
            camera.eye = add3(camera.eye, step);
        }
        if self.is_backward_pressed {
            camera.eye = sub3(camera.eye, step);
        }
        let right = cross3(dir, camera.up);
        proof {
            lemma_cross_bound(dir@, camera.up@, SCALE as int, 4294967296, 4294967296);
        }
        let swing = scale3(right, self.speed);
        proof {
            lemma_scale_bound(right@, self@.speed, 8589934592, SPEED_MAX as int, 9007199254740992);
        }
        let fwd2 = sub3(camera.target, camera.eye);
        let mag2 = mag3(fwd2);
        proof {
            lemma_mag_bounds(fwd2@, 70368744177664);
        }
        if self.is_right_pressed {
            let dir2 = unit3(add3(fwd2, swing));
            let offs = scale3(dir2, mag2);
            proof {
                lemma_scale_bound(dir2@, mag2 as int, SCALE as int, 140737488355328, 140737488355328);
            }
            camera.eye = sub3(camera.target, offs);
        }
        if self.is_left_pressed {
            let dir2 = unit3(sub3(fwd2, swing));
            let offs = scale3(dir2, mag2);
            proof {
                lemma_scale_bound(dir2@, mag2 as int, SCALE as int, 140737488355328, 140737488355328);
            }
            camera.eye = sub3(camera.target, offs);
        }
    }
}

/// The swung view vector that a right press normalises: the view vector
/// plus the scaled side vector.
pub open spec fn swung_forward_right(c: ControllerV, cam: CameraV) -> Vec3i {
    let fwd = v_sub(cam.target, cam.eye);
    v_add(fwd, v_scale(v_cross(v_unit(fwd), cam.up), c.speed))
}

/// The swung view vector that a left press normalises.
pub open spec fn swung_forward_left(c: ControllerV, cam: CameraV) -> Vec3i {
    let fwd = v_sub(cam.target, cam.eye);
    v_sub(fwd, v_scale(v_cross(v_unit(fwd), cam.up), c.speed))
}

/// Orbit-preserving strafe, right press: with only the right flag held,
/// one update keeps the eye on the sphere around the target through the
/// old eye, up to fixed-point rounding. Writing `r` for the fixed-point
/// radius and `w` for the swung view vector (non-zero, or the strafe
/// degenerates to the target itself): the squared distance exceeds `r * r`
/// by at most `2 r^2 / |w|`, and falls short of it by at most
/// `6 r^2 / SCALE + 6 r`.
pub proof fn lemma_orbit_strafe_right(c: ControllerV, cam: CameraV)
    requires
        !c.forward,
        !c.backward,
        !c.left,
        c.right,
        v_norm_sq(swung_forward_right(c, cam)) != 0,
    ensures
        ({
            let r = v_mag(v_sub(cam.target, cam.eye));
            let d2 = v_norm_sq(v_sub(eye_after_update(c, cam), cam.target));
            &&& (d2 - r * r) * v_mag(swung_forward_right(c, cam)) <= 2 * (r * r)
            &&& (r * r - d2) * (SCALE as int) <= 6 * (r * r) + 6 * (r * (SCALE as int))
        }),
{
    let fwd = v_sub(cam.target, cam.eye);
    let r = v_mag(fwd);
    let w = swung_forward_right(c, cam);
    lemma_orbit_strafe_common(w, r, v_sub(eye_after_update(c, cam), cam.target), cam);
}

/// Orbit-preserving strafe, left press: the mirror image of the right
/// press, with the same rounding bounds.
pub proof fn lemma_orbit_strafe_left(c: ControllerV, cam: CameraV)
    requires
        !c.forward,
        !c.backward,
        c.left,
        !c.right,
        v_norm_sq(swung_forward_left(c, cam)) != 0,
    ensures
        ({
            let r = v_mag(v_sub(cam.target, cam.eye));
            let d2 = v_norm_sq(v_sub(eye_after_update(c, cam), cam.target));
            &&& (d2 - r * r) * v_mag(swung_forward_left(c, cam)) <= 2 * (r * r)
            &&& (r * r - d2) * (SCALE as int) <= 6 * (r * r) + 6 * (r * (SCALE as int))
        }),
{
    let fwd = v_sub(cam.target, cam.eye);
    let r = v_mag(fwd);
    let w = swung_forward_left(c, cam);
    lemma_orbit_strafe_common(w, r, v_sub(eye_after_update(c, cam), cam.target), cam);
}

proof fn lemma_orbit_strafe_common(w: Vec3i, r: int, d: Vec3i, cam: CameraV)
    requires
        v_norm_sq(w) != 0,
        r == v_mag(v_sub(cam.target, cam.eye)),
        d == v_sub(v_sub(cam.target, v_scale(v_unit(w), r)), cam.target),
    ensures
        (v_norm_sq(d) - r * r) * v_mag(w) <= 2 * (r * r),
        (r * r - v_norm_sq(d)) * (SCALE as int) <= 6 * (r * r) + 6 * (r * (SCALE as int)),
{
    lemma_norm_sq_nonneg(v_sub(cam.target, cam.eye));
    lemma_sqrt_floor_exists(v_norm_sq(v_sub(cam.target, cam.eye)));
    lemma_scaled_unit_norm_sq(w, r);
    let n = v_scale(v_unit(w), r);
    assert(d.x == -n.x && d.y == -n.y && d.z == -n.z);
    assert(d.x * d.x == n.x * n.x) by (nonlinear_arith)
        requires
            d.x == -n.x,
    ;
    assert(d.y * d.y == n.y * n.y) by (nonlinear_arith)
        requires
            d.y == -n.y,
    ;
    assert(d.z * d.z == n.z * n.z) by (nonlinear_arith)
        requires
            d.z == -n.z,
    ;
    assert(v_norm_sq(d) == v_norm_sq(n));
}

/// Idle ticks change nothing: with no flag held, one update leaves the eye
/// exactly where it was.
pub proof fn lemma_update_idle(c: ControllerV, cam: CameraV)
    requires
        !c.forward,
        !c.backward,
        !c.left,
        !c.right,
    ensures
        eye_after_update(c, cam) == cam.eye,
{
}

/// The forward guard: when the distance to the target does not exceed the
/// step size — in particular when it equals it exactly — a forward press
/// alone does not move the eye, so it never reaches or crosses the target.
pub proof fn lemma_forward_guard(c: ControllerV, cam: CameraV)
    requires
        c.forward,
        !c.backward,
        !c.left,
        !c.right,
        v_mag(v_sub(cam.target, cam.eye)) <= c.speed,
    ensures
        eye_after_update(c, cam) == cam.eye,
{
}

} // verus!
