[package]
name = "orasrs_core_sdk"
version = "0.1.0"
edition = "2021"
publish = false

[dependencies]
roaring = "0.10"
serde = { version = "1", features = ["derive"] }
serde_json = "1"
ethers = { version = "2", default-features = false }
tokio = { version = "1", features = ["rt", "rt-multi-thread", "net", "time"] }
