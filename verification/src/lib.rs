//! Core of a windowed, instanced-quad viewer: an orbit camera and the
//! controller that steers it.
//!
//! Scalars are fixed-point: an `i64` holds the world value times
//! [`fixed::SCALE`], so the whole camera pipeline — normalising vectors,
//! building the view-projection matrix, stepping the eye each tick — is
//! exact integer arithmetic with stated rounding, and every step is verified
//! against a spec-level model. The windowing and GPU plumbing around this
//! core lives outside the library and converts at the edges.

pub mod camera;
pub mod controller;
pub mod events;
pub mod fixed;
pub mod vec3;
