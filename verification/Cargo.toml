[package]
name = "wpbs"
version = "0.1.0"
edition = "2021"
publish = false

[dependencies]
fjall = "*"
tokio = { version = "1", features = ["sync", "rt", "macros"] }
tracing = "*"
uuid = { version = "1", features = ["v4"] }
