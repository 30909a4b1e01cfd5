[package]
name = "qone"
version = "0.1.0"
edition = "2021"
publish = false

[dependencies]
bytemuck = { version = "1", features = ["derive"] }
cgmath = "0.18"
env_logger = "0.9"
futures = "0.3"
image = "0.23"
noise = "0.7"
rand = "0.8"
wgpu = { version = "0.11", features = ["spirv"] }
winit = "0.26"
