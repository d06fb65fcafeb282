[package]
name = "zenaudio"
version = "0.1.0"
edition = "2021"
publish = false

[dependencies]
anyhow = "1"
cpal = "0.15"
env_logger = "0.11"
lofty = "0.18"
ringbuf = "=0.3.3"
rubato = "=0.14.1"
slint = { version = "=1.4.1", default-features = false, features = ["std", "compat-1-2", "backend-qt"] }
symphonia = { version = "=0.5.5", features = ["mp3", "aac", "isomp4"] }
tokio = { version = "=1.54.1", features = ["rt-multi-thread", "macros", "sync", "time"] }
