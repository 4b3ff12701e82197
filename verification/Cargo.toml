[package]
name = "console_relay"
version = "0.1.0"
edition = "2021"
publish = false

[dependencies]
futures = "0.3"
interprocess = { version = "1.2.1", features = ["tokio_support"] }
tokio = { version = "1", features = ["rt", "rt-multi-thread", "macros", "sync"] }
