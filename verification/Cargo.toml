[package]
name = "futures-scopes"
version = "0.2.0"
edition = "2021"
publish = false

[dependencies]
crossbeam-channel = "0.5"
dashmap = "6"
futures = { version = "0.3", features = ["thread-pool"] }
pin-project = "1"
