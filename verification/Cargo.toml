[package]
name = "ghostlib"
version = "0.1.0"
edition = "2021"
publish = false

[dependencies]
anyhow = "1"
bytes = "1"
chrono = { version = "0.4", default-features = false, features = ["clock", "std", "serde"] }
flexbuffers = "2"
futures = "0.3"
futures-util = "0.3"
iroh-base = { version = "0.18", features = ["base32"] }
iroh-docs = { version = "0.18", default-features = false }
serde = { version = "1", features = ["derive"] }
tokio = { version = "1", features = ["rt", "rt-multi-thread", "macros", "sync", "fs", "io-util", "time"] }
tracing = "0.1"
uniffi = "0.27"
