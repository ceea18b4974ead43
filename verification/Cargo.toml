[package]
name = "dlna"
version = "0.1.0"
edition = "2021"
publish = false

[dependencies]
percent-encoding = "1"
hyper = "0.11"
futures = "0.1"
futures-cpupool = "0.1"
tokio-core = "0.1"
bytes = "0.4"
error-chain = { version = "0.12", default-features = false }
serde = { version = "1", features = ["derive"] }
