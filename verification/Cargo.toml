[package]
name = "quantum_life"
version = "0.1.0"
edition = "2021"
publish = false

[dependencies]
rand = "0.8"
bytemuck = { version = "1", features = ["derive"] }
log = "0.4"
pollster = "0.3"
rayon = "1"
wgpu = "*"
winit = "0.30"
piston_window = "*"
