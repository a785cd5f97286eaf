[package]
name = "fast3d"
version = "0.1.0"
edition = "2021"
publish = false

[dependencies]
twox-hash = "2"
bytemuck = { version = "1", features = ["derive"] }
