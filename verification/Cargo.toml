[package]
name = "camera_collision"
version = "0.1.0"
edition = "2021"
publish = false

[dependencies]
ncollide3d = "0.33"
serde = { version = "1", features = ["derive"] }
