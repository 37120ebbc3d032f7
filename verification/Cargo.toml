[package]
name = "zen-render-mesh"
version = "0.1.0"
edition = "2021"
publish = false

[dependencies]
bytemuck = { version = "1", features = ["derive"] }
glam = "*"
meshopt = "*"
thiserror = "2"
wgpu = { version = "*", default-features = false }
