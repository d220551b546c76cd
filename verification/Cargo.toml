[package]
name = "audio_limiter"
version = "0.1.0"
edition = "2021"
publish = false

[dependencies]
atomic_float = "1"
config-file2 = "*"
cpal = "0.15"
directories = "*"
serde = { version = "1", features = ["derive"] }
sys-locale = "0.3"
