[package]
name = "slmp"
version = "0.1.0"
edition = "2021"
publish = false

[dependencies]
encoding_rs = "*"
tokio = { version = "*", features = ["full"] }
tokio-util = { version = "*", features = ["full"] }
