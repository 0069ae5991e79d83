[package]
name = "notepad_core"
version = "0.1.0"
edition = "2021"
publish = false

[dependencies]
ropey = { version = "1.6", default-features = false, features = ["simd"] }
encoding_rs = "0.8"
winit = { version = "0.29", default-features = false, features = ["x11", "rwh_06"] }
pollster = "0.3"
rfd = "0.14"
arboard = { version = "3", default-features = false }
bytemuck = { version = "1", features = ["derive"] }
