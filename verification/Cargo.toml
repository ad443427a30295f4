[package]
name = "debug_overlay"
version = "0.1.0"
edition = "2021"
publish = false

[dependencies]
bytemuck = "1"
png = "0.17"
serde = { version = "1", features = ["derive"] }
stb_truetype_rust = "*"
wgpu = "23"
