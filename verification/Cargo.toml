[package]
name = "gekkemieren"
version = "0.1.0"
edition = "2021"
publish = false

[dependencies]
rand = "*"
anyhow = "*"
bytemuck = { version = "*", features = ["derive"] }
chrono = "*"
env_logger = "*"
log = "*"
png = "*"
pollster = "*"
serde = { version = "*", features = ["derive"] }
toml = "*"
wgpu = "*"
winit = "*"
