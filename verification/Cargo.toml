[package]
name = "voxtech"
version = "0.1.0"
edition = "2021"
publish = false

[dependencies]
base64 = "*"
hashbrown = "*"
bytemuck = { version = "*", features = ["derive"] }
image = { version = "*", default-features = false }
nalgebra = "*"
parking_lot = "*"
pollster = "*"
wgpu = "*"
winit = "*"
