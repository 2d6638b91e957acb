//! Behavioural tests of the camera core: the construction scenario, the
//! per-tick eye updates, and the view-projection matrix against a
//! double-precision reference.

use orbit_camera::camera::{aspect_from_size, Camera, Mat4, ASPECT_MAX, ASPECT_MIN, FOCAL_FX};
use orbit_camera::controller::CameraController;
use orbit_camera::events::{InputEvent, KeyCode};
use orbit_camera::fixed::SCALE;
use orbit_camera::vec3::Vec3;

const SPEED: i64 = 209715; // 0.2 world units per tick, fixed-point

fn fx(v: i64) -> f64 {
    v as f64 / SCALE as f64
}

fn default_camera() -> Camera {
    Camera::new(aspect_from_size(1600, 900))
}

fn press(ctl: &mut CameraController, k: KeyCode) {
    assert!(ctl.process_events(&InputEvent::KeyPress(k)));
}

fn entries(m: &Mat4) -> Vec<i64> {
    vec![
        m.x_axis.x, m.x_axis.y, m.x_axis.z, m.x_axis.w,
        m.y_axis.x, m.y_axis.y, m.y_axis.z, m.y_axis.w,
        m.z_axis.x, m.z_axis.y, m.z_axis.z, m.z_axis.w,
        m.w_axis.x, m.w_axis.y, m.w_axis.z, m.w_axis.w,
    ]
}

/// Column-major view-projection reference in f64: right-handed look-at and
/// right-handed perspective with zero-to-one depth.
fn reference_vp(eye: [f64; 3], target: [f64; 3], up: [f64; 3], aspect: f64) -> Vec<f64> {
    let sub = |a: [f64; 3], b: [f64; 3]| [a[0] - b[0], a[1] - b[1], a[2] - b[2]];
    let cross = |a: [f64; 3], b: [f64; 3]| {
        [
            a[1] * b[2] - a[2] * b[1],
            a[2] * b[0] - a[0] * b[2],
            a[0] * b[1] - a[1] * b[0],
        ]
    };
    let dot = |a: [f64; 3], b: [f64; 3]| a[0] * b[0] + a[1] * b[1] + a[2] * b[2];
    let norm = |a: [f64; 3]| {
        let m = dot(a, a).sqrt();
        [a[0] / m, a[1] / m, a[2] / m]
    };
    let f = norm(sub(target, eye));
    let s = norm(cross(f, up));
    let u = cross(s, f);
    let view: [[f64; 4]; 4] = [
        [s[0], u[0], -f[0], 0.0],
        [s[1], u[1], -f[1], 0.0],
        [s[2], u[2], -f[2], 0.0],
        [-dot(s, eye), -dot(u, eye), dot(f, eye), 1.0],
    ];
    let fovy = 45.0_f64.to_radians();
    let (zn, zf) = (0.1, 100.0);
    let h = 1.0 / (fovy / 2.0).tan();
    let r = zf / (zn - zf);
    let proj: [[f64; 4]; 4] = [
        [h / aspect, 0.0, 0.0, 0.0],
        [0.0, h, 0.0, 0.0],
        [0.0, 0.0, r, -1.0],
        [0.0, 0.0, r * zn, 0.0],
    ];
    let mut out = Vec::new();
    for col in 0..4 {
        for row in 0..4 {
            let mut acc = 0.0;
            for k in 0..4 {
                acc += proj[k][row] * view[col][k];
            }
            out.push(acc);
        }
    }
    out
}

#[test]
fn new_camera_fields() {
    let cam = default_camera();
    assert_eq!(cam.eye, Vec3 { x: 0, y: SCALE, z: 2 * SCALE });
    assert_eq!(cam.target, Vec3 { x: 0, y: 0, z: 0 });
    assert_eq!(cam.up, Vec3 { x: 0, y: SCALE, z: 0 });
    assert_eq!(cam.aspect, 1864135);
}

#[test]
fn aspect_from_size_value_and_clamps() {
    assert_eq!(aspect_from_size(1600, 900), 1864135);
    assert_eq!(aspect_from_size(1, 1), SCALE);
    assert_eq!(aspect_from_size(1, 4294967295), ASPECT_MIN);
    assert_eq!(aspect_from_size(4294967295, 1), ASPECT_MAX);
}

#[test]
fn matrix_is_finite_for_valid_camera() {
    let m = default_camera().build_view_projection_matrix();
    for e in entries(&m) {
        assert!(fx(e).is_finite());
    }
}

#[test]
fn matrix_matches_float_reference() {
    let cam = default_camera();
    let m = cam.build_view_projection_matrix();
    let reference = reference_vp(
        [0.0, 1.0, 2.0],
        [0.0, 0.0, 0.0],
        [0.0, 1.0, 0.0],
        1600.0 / 900.0,
    );
    let got = entries(&m);
    for i in 0..16 {
        assert!((fx(got[i]) - reference[i]).abs() < 1e-5);
    }
}

#[test]
fn matrix_matches_glam() {
    let cam = default_camera();
    let m = cam.build_view_projection_matrix();
    let view = glam::Mat4::look_at_rh(
        glam::Vec3::new(0.0, 1.0, 2.0),
        glam::Vec3::ZERO,
        glam::Vec3::Y,
    );
    let proj =
        glam::Mat4::perspective_rh(45.0_f32.to_radians(), 1600.0 / 900.0, 0.1, 100.0);
    let reference = (proj * view).to_cols_array();
    let got = entries(&m);
    for i in 0..16 {
        assert!((fx(got[i]) as f32 - reference[i]).abs() < 1e-4);
    }
}

#[test]
fn aspect_roundtrip_through_matrix() {
    // The horizontal scale term of the projection is the focal scale over
    // the aspect ratio; for the canonical camera the view matrix keeps the
    // x axis, so the product's first entry is that term unchanged.
    let cam = default_camera();
    let m = cam.build_view_projection_matrix();
    let recovered = fx(FOCAL_FX) / fx(m.x_axis.x);
    assert!((recovered - 1600.0 / 900.0).abs() < 1e-5);
}

#[test]
fn idle_update_keeps_eye() {
    let mut cam = default_camera();
    let ctl = CameraController::new(SPEED);
    ctl.update_camera(&mut cam);
    assert_eq!(cam.eye, Vec3 { x: 0, y: SCALE, z: 2 * SCALE });
}

#[test]
fn forward_press_moves_toward_target() {
    let mut cam = default_camera();
    let mut ctl = CameraController::new(SPEED);
    press(&mut ctl, KeyCode::KeyW);
    ctl.update_camera(&mut cam);
    assert_eq!(cam.eye, Vec3 { x: 0, y: 954789, z: 1909578 });
    assert!((fx(cam.eye.y) - 0.910557).abs() < 1e-5);
    assert!((fx(cam.eye.z) - 1.821114).abs() < 1e-5);
    assert_eq!(cam.eye.x, 0);
}

#[test]
fn forward_guard_blocks_at_exact_distance() {
    // One world unit from the target with a one-unit step: the strict
    // guard blocks the move, so the eye never reaches the target.
    let mut cam = default_camera();
    cam.eye = Vec3 { x: 0, y: 0, z: SCALE };
    let mut ctl = CameraController::new(SCALE);
    press(&mut ctl, KeyCode::KeyW);
    ctl.update_camera(&mut cam);
    assert_eq!(cam.eye, Vec3 { x: 0, y: 0, z: SCALE });
}

#[test]
fn forward_and_backward_cancel() {
    let mut cam = default_camera();
    let mut ctl = CameraController::new(SPEED);
    press(&mut ctl, KeyCode::KeyW);
    press(&mut ctl, KeyCode::KeyS);
    ctl.update_camera(&mut cam);
    assert_eq!(cam.eye, Vec3 { x: 0, y: SCALE, z: 2 * SCALE });
}

#[test]
fn backward_has_no_guard() {
    // Closer to the target than one step, backward still moves away.
    let mut cam = default_camera();
    cam.eye = Vec3 { x: 0, y: 0, z: 104858 };
    let mut ctl = CameraController::new(SPEED);
    press(&mut ctl, KeyCode::KeyS);
    ctl.update_camera(&mut cam);
    assert_eq!(cam.eye, Vec3 { x: 0, y: 0, z: 314573 });
}

fn orbit_radius(cam: &Camera) -> f64 {
    let dx = fx(cam.eye.x) - fx(cam.target.x);
    let dy = fx(cam.eye.y) - fx(cam.target.y);
    let dz = fx(cam.eye.z) - fx(cam.target.z);
    (dx * dx + dy * dy + dz * dz).sqrt()
}

#[test]
fn right_press_orbits_on_sphere() {
    let mut cam = default_camera();
    let before = orbit_radius(&cam);
    assert!((before - 5.0_f64.sqrt()).abs() < 1e-6);
    let mut ctl = CameraController::new(SPEED);
    press(&mut ctl, KeyCode::KeyD);
    ctl.update_camera(&mut cam);
    assert_eq!(cam.eye, Vec3 { x: -186975, y: 1045236, z: 2090472 });
    assert!((orbit_radius(&cam) - before).abs() < 1e-5);
    assert_ne!(cam.eye.x, 0);
}

#[test]
fn left_press_orbits_on_sphere() {
    let mut cam = default_camera();
    let before = orbit_radius(&cam);
    let mut ctl = CameraController::new(SPEED);
    press(&mut ctl, KeyCode::KeyA);
    ctl.update_camera(&mut cam);
    assert_eq!(cam.eye, Vec3 { x: 186975, y: 1045236, z: 2090472 });
    assert!((orbit_radius(&cam) - before).abs() < 1e-5);
}

#[test]
fn strafe_after_forward_uses_new_radius() {
    // Holding forward and right in one tick: the strafe re-reads the
    // distance after the forward step, so the new radius is the shortened
    // one.
    let mut cam = default_camera();
    let mut ctl = CameraController::new(SPEED);
    press(&mut ctl, KeyCode::KeyW);
    press(&mut ctl, KeyCode::KeyD);
    ctl.update_camera(&mut cam);
    let shortened = 5.0_f64.sqrt() - 0.2;
    assert!((orbit_radius(&cam) - shortened).abs() < 1e-5);
}
