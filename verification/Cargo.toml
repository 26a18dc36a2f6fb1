[package]
name = "simple_http_client"
version = "0.1.0"
edition = "2021"
publish = false

[dependencies]
url = "2"
tokio = { version = "1", features = ["net", "io-util", "rt"] }
smol = "2"
bytes = "1"
mini-redis = "0.4"
