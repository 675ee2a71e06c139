[package]
name = "mira"
version = "0.1.0"
edition = "2021"
publish = false

[dependencies]
log = "=0.4.35"
serde = { version = "=1.0.229", features = ["derive"] }
toml = "=0.8.23"
fern = "=0.6.2"
chrono = "=0.4.45"
num_cpus = "=1.17.0"
tokio = { version = "=1.54.1", features = ["rt-multi-thread", "macros"] }
bytemuck = { version = "=1.25.2", features = ["derive"] }
winit = { version = "0.29", default-features = false, features = ["rwh_06", "x11"] }
nokhwa = { version = "0.10", default-features = false, features = ["input-v4l"] }

[dev-dependencies]
tempfile = "=3.27.0"
