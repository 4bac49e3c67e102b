[package]
name = "procreate_render"
version = "0.1.0"
edition = "2021"
publish = false

[dependencies]
wgpu = "0.14"
image = { version = "0.24", default-features = false }
bytemuck = { version = "1", features = ["derive"] }
winit = "0.27"
