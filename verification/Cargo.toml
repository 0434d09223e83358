[package]
name = "fmtp"
version = "0.1.0"
edition = "2021"
publish = false

[dependencies]
zerocopy = "0.8"
anyhow = "1"
tokio = { version = "1", features = ["macros", "rt-multi-thread", "net", "io-util", "time", "sync"] }
axum = "0.8"
tracing = "0.1"
tracing-subscriber = { version = "0.3", features = ["env-filter"] }
uuid = { version = "1", features = ["v4"] }
