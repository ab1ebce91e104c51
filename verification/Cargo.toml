[package]
name = "lightning_prune"
version = "0.1.0"
edition = "2021"
publish = false

[dependencies]
crossbeam-channel = "0.5"
serde_json = "1"
tokio = { version = "1", features = ["rt-multi-thread", "macros", "net", "time", "io-util", "sync"] }
reqwest = { version = "0.12", default-features = false, features = ["json"] }
log = "0.4"
simple-logging = "2"
url = "2"
