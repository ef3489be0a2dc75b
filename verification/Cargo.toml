[package]
name = "xpbd"
version = "0.1.0"
edition = "2021"
publish = false

[dependencies]
rayon = "=1.12.0"
wgpu = "=30.0.1"
glam = { version = "=0.34.0", features = ["encase-013"] }
encase = "=0.13.0"
bytemuck = { version = "=1.25.2", features = ["derive"] }
