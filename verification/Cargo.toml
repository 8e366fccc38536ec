[package]
name = "debug_sessions"
version = "0.1.0"
edition = "2021"
publish = false

[dependencies]
probe-rs = "*"
chrono = "*"
uuid = { version = "*", features = ["v4"] }
serde = { version = "*", features = ["derive"] }
schemars = "*"
tokio = { version = "*", features = ["sync", "rt-multi-thread", "macros"] }
