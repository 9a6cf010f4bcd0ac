[package]
name = "scrapnote"
version = "0.1.0"
edition = "2021"
publish = false

[dependencies]
percent-encoding = "2"
hyper = { version = "0.14", features = ["server", "http1", "tcp", "runtime"] }
tokio = { version = "1", features = ["full"] }
serde = { version = "1", features = ["derive"] }
serde_json = "1"

[dev-dependencies]
