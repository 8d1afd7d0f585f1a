[package]
name = "axum-fault-tolerance"
version = "0.1.0"
edition = "2021"
publish = false

[dependencies]
proc-macro2 = "1"
quote = "1"
syn = { version = "2", features = ["full"] }
tokio = { version = "1", features = ["rt", "sync", "time"] }
tower-layer = "0.3"
tower-service = "0.3"
