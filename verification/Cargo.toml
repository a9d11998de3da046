[package]
name = "mqtt5"
version = "0.1.0"
edition = "2021"
publish = false

[dependencies]
anyhow = "1"
bytes = "1"
futures = "0.3"
tokio = { version = "1", default-features = false, features = ["net", "time", "io-util", "rt", "macros"] }
tokio-util = { version = "0.7", default-features = false, features = ["codec"] }
