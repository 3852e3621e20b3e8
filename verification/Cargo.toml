[package]
name = "patchbay"
version = "0.1.0"
edition = "2021"
publish = false

[dependencies]
anyhow = "1"
chrono = "0.4"
futures = "0.3"
hickory-proto = "0.25"
ipnet = { version = "2", features = ["serde"] }
libc = "0.2"
nix = { version = "0.30", features = ["fs", "mount", "process", "sched", "signal", "user"] }
rtnetlink = "*"
serde = { version = "1", features = ["derive"] }
serde_json = "1"
tokio = { version = "1", features = ["full"] }
tokio-util = { version = "0.7", features = ["rt"] }
toml = "0.8"
tracing = "0.1"
