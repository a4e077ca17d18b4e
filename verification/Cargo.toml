[package]
name = "helio_pipeline"
version = "0.1.0"
edition = "2021"
publish = false

[dependencies]
bytemuck = "=1.25.2"
glam = "=0.34.2"
log = "=0.4.35"
wgpu = { version = "29", default-features = false, features = ["wgsl"] }
