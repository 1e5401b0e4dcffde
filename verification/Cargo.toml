[package]
name = "xpt_reader"
version = "0.1.0"
edition = "2021"
publish = false

[dependencies]
encoding = "*"
tokio = { version = "*", features = ["io-util", "fs", "rt"] }
