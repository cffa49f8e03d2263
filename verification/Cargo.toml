[package]
name = "bucket_scan"
version = "0.1.0"
edition = "2021"
publish = false

[dependencies]
aws-config = "=1.12.0"
aws-sdk-s3 = "=1.152.0"
aws-types = "~1.6.0"
futures = "=0.3.34"
lambda_runtime = "=1.5.0"
memchr = "=2.8.3"
serde = { version = "=1.0.229", features = ["derive"] }
tokio = { version = "=1.54.1", features = ["macros", "rt-multi-thread"] }
