[package]
name = "shader_lab"
version = "0.1.0"
edition = "2021"
publish = false

[dependencies]
anyhow = "1"
env_logger = "*"
log = "0.4"
naga = { version = "*", features = ["wgsl-in"] }
notify = "*"
pollster = "*"
wgpu = "*"
winit = "*"
