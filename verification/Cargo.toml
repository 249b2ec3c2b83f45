[package]
name = "osubot_core"
version = "0.1.0"
edition = "2021"
publish = false

[dependencies]
chrono = "0.4"
rand = "*"
turso = "*"
tokio = { version = "1", features = ["rt", "macros", "sync", "time"] }
futures-util = "0.3"
tracing = "0.1"
