[package]
name = "audio_capture_core"
version = "0.1.0"
edition = "2021"
publish = false

[dependencies]
base64 = "*"
cpal = "*"
serde = { version = "*", features = ["derive"] }
tokio = { version = "*", features = ["rt", "rt-multi-thread", "sync", "time", "macros"] }

[dev-dependencies]
hound = "*"
