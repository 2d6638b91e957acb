//! Discrete windowing events, reduced to what the core reacts to.
//!
//! The surrounding event loop translates its window system's events into
//! [`InputEvent`] values; the controller consumes the key events, and
//! [`loop_action`] decides what the frame loop does with everything the
//! controller did not consume.

use vstd::prelude::*;

verus! {

/// The physical keys the core distinguishes; everything else is `Other`.
#[derive(Clone, Copy, Debug, PartialEq, Eq, Structural)]
pub enum KeyCode {
    KeyW,
    KeyA,
    KeyS,
    KeyD,
    ArrowUp,
    ArrowDown,
    ArrowLeft,
    ArrowRight,
    Escape,
    Other,
}

/// A windowing event: a key state change, a resize with the new size in
/// pixels, a close request, a redraw request, or anything else.
#[derive(Clone, Copy, Debug, PartialEq, Eq, Structural)]
pub enum InputEvent {
    KeyPress(KeyCode),
    KeyRelease(KeyCode),
    Resize(u32, u32),
    CloseRequested,
    RedrawRequested,
    Other,
}

pub open spec fn is_forward_key(k: KeyCode) -> bool {
    k == KeyCode::KeyW || k == KeyCode::ArrowUp
}

pub open spec fn is_left_key(k: KeyCode) -> bool {
    k == KeyCode::KeyA || k == KeyCode::ArrowLeft
}

pub open spec fn is_backward_key(k: KeyCode) -> bool {
    k == KeyCode::KeyS || k == KeyCode::ArrowDown
}

pub open spec fn is_right_key(k: KeyCode) -> bool {
    k == KeyCode::KeyD || k == KeyCode::ArrowRight
}

/// The keys that drive the camera, and that the controller consumes.
pub open spec fn is_camera_key(k: KeyCode) -> bool {
    is_forward_key(k) || is_left_key(k) || is_backward_key(k) || is_right_key(k)
}

/// What the frame loop does after the controller has (or has not) consumed
/// an event.
#[derive(Clone, Copy, Debug, PartialEq, Eq, Structural)]
pub enum LoopAction {
    /// Stop the event loop.
    Exit,
    /// Reconfigure the surface to the new size, then ask for a redraw.
    Reconfigure(u32, u32),
    /// Step the camera, draw a frame, then ask for the next redraw.
    Redraw,
    /// Nothing to do.
    Ignore,
}

/// The loop's decision: consumed events are ignored; otherwise the escape
/// key (pressed or released) and a close request end the loop, a resize
/// reconfigures, and a redraw request draws.
pub open spec fn action_for(handled: bool, e: InputEvent) -> LoopAction {
    if handled {
        LoopAction::Ignore
    } else {
        match e {
            InputEvent::KeyPress(k) => if k == KeyCode::Escape {
                LoopAction::Exit
            } else {
                LoopAction::Ignore
            },
            InputEvent::KeyRelease(k) => if k == KeyCode::Escape {
                LoopAction::Exit
            } else {
                LoopAction::Ignore
            },
            InputEvent::Resize(w, h) => LoopAction::Reconfigure(w, h),
            InputEvent::CloseRequested => LoopAction::Exit,
            InputEvent::RedrawRequested => LoopAction::Redraw,
            InputEvent::Other => LoopAction::Ignore,
        }
    }
}

/// Decide what the frame loop does with an event, given whether the camera
/// controller already consumed it.
pub fn loop_action(handled: bool, event: &InputEvent) -> (r: LoopAction)
    ensures
        r == action_for(handled, *event),
{
    if handled {
        LoopAction::Ignore
    } else {
        match event {
            InputEvent::KeyPress(k) => {
                match k {
                    KeyCode::Escape => LoopAction::Exit,
                    _ => LoopAction::Ignore,
                }
            },
            InputEvent::KeyRelease(k) => {
                match k {
                    KeyCode::Escape => LoopAction::Exit,
                    _ => LoopAction::Ignore,
                }
            },
            InputEvent::Resize(w, h) => LoopAction::Reconfigure(*w, *h),
            InputEvent::CloseRequested => LoopAction::Exit,
            InputEvent::RedrawRequested => LoopAction::Redraw,
            InputEvent::Other => LoopAction::Ignore,
        }
    }
}

} // verus!
