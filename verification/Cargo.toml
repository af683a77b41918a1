[package]
name = "journald-to-cloudwatch"
version = "0.1.0"
edition = "2021"
publish = false

[dependencies]
async-trait = "=0.1.92"
aws-config = { version = "=1.13.0", default-features = false, features = ["rt-tokio"] }
aws-sdk-cloudwatchlogs = { version = "=1.160.0", default-features = false, features = ["rt-tokio"] }
aws-types = "=1.7.0"
chrono = { version = "=0.4.45", default-features = false, features = ["clock", "std"] }
reqwest = { version = "=0.13.5", default-features = false }
systemd = "=0.10.1"
tokio = { version = "=1.54.1", features = ["macros", "rt-multi-thread", "sync"] }
