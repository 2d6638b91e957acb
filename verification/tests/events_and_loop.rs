//! Tests of event consumption and the frame loop's dispatch decision.

use orbit_camera::camera::Camera;
use orbit_camera::controller::CameraController;
use orbit_camera::events::{loop_action, InputEvent, KeyCode, LoopAction};
use orbit_camera::fixed::SCALE;
use orbit_camera::vec3::Vec3;

const SPEED: i64 = 209715;

fn start_eye() -> Vec3 {
    Vec3 { x: 0, y: SCALE, z: 2 * SCALE }
}

fn eye_after_press(k: KeyCode) -> Vec3 {
    let mut cam = Camera::new(SCALE);
    let mut ctl = CameraController::new(SPEED);
    assert!(ctl.process_events(&InputEvent::KeyPress(k)));
    ctl.update_camera(&mut cam);
    cam.eye
}

#[test]
fn camera_keys_are_consumed() {
    let mut ctl = CameraController::new(SPEED);
    let keys = vec![
        KeyCode::KeyW,
        KeyCode::KeyA,
        KeyCode::KeyS,
        KeyCode::KeyD,
        KeyCode::ArrowUp,
        KeyCode::ArrowDown,
        KeyCode::ArrowLeft,
        KeyCode::ArrowRight,
    ];
    for k in keys {
        assert!(ctl.process_events(&InputEvent::KeyPress(k)));
        assert!(ctl.process_events(&InputEvent::KeyRelease(k)));
    }
}

#[test]
fn other_events_are_not_consumed() {
    let mut ctl = CameraController::new(SPEED);
    assert!(!ctl.process_events(&InputEvent::KeyPress(KeyCode::Escape)));
    assert!(!ctl.process_events(&InputEvent::KeyPress(KeyCode::Other)));
    assert!(!ctl.process_events(&InputEvent::KeyRelease(KeyCode::Escape)));
    assert!(!ctl.process_events(&InputEvent::Resize(800, 600)));
    assert!(!ctl.process_events(&InputEvent::CloseRequested));
    assert!(!ctl.process_events(&InputEvent::RedrawRequested));
    assert!(!ctl.process_events(&InputEvent::Other));
}

#[test]
fn unrecognized_key_changes_nothing() {
    let mut cam = Camera::new(SCALE);
    let mut ctl = CameraController::new(SPEED);
    assert!(!ctl.process_events(&InputEvent::KeyPress(KeyCode::Other)));
    ctl.update_camera(&mut cam);
    assert_eq!(cam.eye, start_eye());
}

#[test]
fn each_direction_key_moves_its_way() {
    // Forward keys shrink the distance along the view ray; backward grows
    // it; the strafes move the eye sideways, right to negative x here.
    for k in vec![KeyCode::KeyW, KeyCode::ArrowUp] {
        let e = eye_after_press(k);
        assert!(e.z < 2 * SCALE && e.y < SCALE && e.x == 0);
    }
    for k in vec![KeyCode::KeyS, KeyCode::ArrowDown] {
        let e = eye_after_press(k);
        assert!(e.z > 2 * SCALE && e.y > SCALE && e.x == 0);
    }
    for k in vec![KeyCode::KeyD, KeyCode::ArrowRight] {
        let e = eye_after_press(k);
        assert!(e.x < 0);
    }
    for k in vec![KeyCode::KeyA, KeyCode::ArrowLeft] {
        let e = eye_after_press(k);
        assert!(e.x > 0);
    }
}

#[test]
fn key_release_stops_movement() {
    let mut cam = Camera::new(SCALE);
    let mut ctl = CameraController::new(SPEED);
    assert!(ctl.process_events(&InputEvent::KeyPress(KeyCode::KeyW)));
    ctl.update_camera(&mut cam);
    let moved = cam.eye;
    assert_ne!(moved, start_eye());
    assert!(ctl.process_events(&InputEvent::KeyRelease(KeyCode::KeyW)));
    ctl.update_camera(&mut cam);
    assert_eq!(cam.eye, moved);
}

#[test]
fn consumed_events_are_ignored_by_the_loop() {
    assert_eq!(
        loop_action(true, &InputEvent::KeyPress(KeyCode::KeyW)),
        LoopAction::Ignore
    );
    assert_eq!(loop_action(true, &InputEvent::CloseRequested), LoopAction::Ignore);
}

#[test]
fn escape_and_close_exit_the_loop() {
    assert_eq!(
        loop_action(false, &InputEvent::KeyPress(KeyCode::Escape)),
        LoopAction::Exit
    );
    assert_eq!(
        loop_action(false, &InputEvent::KeyRelease(KeyCode::Escape)),
        LoopAction::Exit
    );
    assert_eq!(loop_action(false, &InputEvent::CloseRequested), LoopAction::Exit);
}

#[test]
fn resize_reconfigures_and_redraw_draws() {
    assert_eq!(
        loop_action(false, &InputEvent::Resize(1024, 768)),
        LoopAction::Reconfigure(1024, 768)
    );
    assert_eq!(loop_action(false, &InputEvent::RedrawRequested), LoopAction::Redraw);
    assert_eq!(loop_action(false, &InputEvent::Other), LoopAction::Ignore);
    assert_eq!(
        loop_action(false, &InputEvent::KeyPress(KeyCode::KeyW)),
        LoopAction::Ignore
    );
}
