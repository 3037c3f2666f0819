[package]
name = "yawper"
version = "0.1.0"
edition = "2021"
publish = false

[dependencies]
audiopus = "*"
bincode = "1"
cpal = "*"
crossbeam-channel = "*"
ringbuf = "*"
serde = { version = "*", features = ["derive"] }
tokio = { version = "*", features = ["rt-multi-thread", "macros", "sync", "time"] }
wtransport = "*"
