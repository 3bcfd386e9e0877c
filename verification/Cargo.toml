[package]
name = "rether"
version = "0.1.0"
edition = "2021"
publish = false

[dependencies]
glam = "0.29"
parking_lot = "0.12"
bytemuck = { version = "1", features = ["derive"] }
wgpu = "22"
winit = "0.30"
pollster = "0.3"
