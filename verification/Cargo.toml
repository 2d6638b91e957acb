[package]
name = "orbit_camera"
version = "0.1.0"
edition = "2021"
publish = false

[dependencies]
glam = "=0.29.3"
bytemuck = { version = "=1.25.2", features = ["derive"] }
winit = { version = "=0.29.15", default-features = false, features = ["x11"] }
