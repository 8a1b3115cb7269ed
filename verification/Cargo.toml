[package]
name = "mountpoint_core"
version = "0.1.0"
edition = "2021"
publish = false

[dependencies]
anyhow = "=1.0.104"
aws-config = "=1.13.0"
aws-credential-types = "=1.3.1"
dashmap = "=6.2.1"
libc = "=0.2.191"
quick_cache = "=0.6.24"
signal-hook = "=0.3.18"
supports-color = "=2.1.0"
time = { version = "=0.3.55", features = ["formatting", "parsing"] }
tokio = { version = "=1.54.1", features = ["rt", "time", "net", "io-util"] }
tracing = "=0.1.44"
tracing-subscriber = { version = "=0.3.23", features = ["env-filter"] }
