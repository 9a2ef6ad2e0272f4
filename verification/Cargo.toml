[package]
name = "gur"
version = "0.1.0"
edition = "2021"
publish = false

[dependencies]
anyhow = "1"
bytemuck = { version = "1", features = ["derive"] }
env_logger = "0.11"
glam = { version = "0.29", features = ["serde"] }
hecs = "0.10"
image = { version = "0.25", default-features = false, features = ["png"] }
log = "0.4"
parking_lot = "0.12"
pollster = "0.3"
profiling = "1"
rapier2d = "0.22"
ron = "0.8"
serde = { version = "1", features = ["derive"] }
serde_json = "1"
thiserror = "1"
winit = { version = "0.30", default-features = false, features = ["x11", "rwh_06"] }
