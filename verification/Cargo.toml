[package]
name = "tranquil-metastore"
version = "0.1.0"
edition = "2021"
publish = false

[dependencies]
chrono = "0.4"
fjall = "3"
flume = "0.11"
parking_lot = "0.12"
postcard = { version = "1", default-features = false, features = ["alloc"] }
serde_json = "1"
siphasher = "1"
tokio = { version = "1", default-features = false, features = ["rt", "sync", "time"] }
tracing = "0.1"
uuid = { version = "1", features = ["v4"] }
