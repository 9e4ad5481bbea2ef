[package]
name = "s3deck"
version = "0.1.0"
edition = "2021"
publish = false

[dependencies]
mime_guess = "*"
uuid = { version = "*", features = ["v4"] }
serde = { version = "*", features = ["derive"] }
serde_json = "*"
dirs = "*"
tokio = { version = "*", features = ["rt-multi-thread", "macros", "fs"] }
aws-config = "*"
aws-sdk-s3 = "*"
