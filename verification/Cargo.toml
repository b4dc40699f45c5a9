[package]
name = "pumpkin_gui"
version = "0.1.0"
edition = "2021"
publish = false

[dependencies]
serde = { version = "=1.0.229", features = ["derive"] }
toml = "=1.1.8"
clap = { version = "=4.6.7", features = ["derive"] }
tokio = { version = "=1.54.1", features = ["rt", "rt-multi-thread", "net", "sync", "io-util", "time"] }
rfd = "=0.17.2"
iced = { version = "=0.14.0", default-features = false, features = ["wgpu", "crisp", "web-colors", "thread-pool", "x11", "tokio", "canvas", "advanced"] }
