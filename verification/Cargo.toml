[package]
name = "gitstore"
version = "0.1.0"
edition = "2021"
publish = false

[dependencies]
flate2 = "1"
hex = "0.4"
tokio = { version = "1", features = ["sync"] }
tracing = "0.1"
aws-sdk-s3 = { version = "1", default-features = false }
