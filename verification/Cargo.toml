[package]
name = "wgpu-pcd"
version = "0.1.0"
edition = "2021"
publish = false

[dependencies]
anyhow = "1"
bytemuck = { version = "1", features = ["derive"] }
cfg-if = "1"
cgmath = "0.18"
env_logger = "0.11"
glam = "0.29"
log = "0.4"
pcd-rs = { version = "*", features = ["derive"] }
wgpu = "24"
winit = "0.29"
