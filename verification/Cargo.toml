[package]
name = "bucketsync"
version = "0.1.0"
edition = "2021"
publish = false

[dependencies]
chrono = "*"
uuid = { version = "*", features = ["v4"] }
aws-sdk-s3 = "*"
aws-credential-types = "*"
tokio = { version = "*", features = ["rt-multi-thread", "macros"] }
