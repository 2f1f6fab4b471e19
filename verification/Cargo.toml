[package]
name = "firered-vad"
version = "0.1.0"
edition = "2021"
publish = false

[dependencies]
ort = { version = "=2.0.0-rc.15", default-features = false, features = ["std"] }
rustfft = "=6.4.1"
thiserror = "=2.0.21"
serde = { version = "=1.0.229", features = ["derive"] }
humantime-serde = "=1.1.1"
