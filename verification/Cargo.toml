[package]
name = "clipforge"
version = "0.1.0"
edition = "2021"
publish = false

[dependencies]
dirs = "*"
ffmpeg-next = "*"
rfd = "*"
serde = { version = "1", features = ["derive"] }
