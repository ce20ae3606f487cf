[package]
name = "ip_country"
version = "0.1.0"
edition = "2021"
publish = false

[dependencies]
maxminddb = "=0.32.0"
serde_json = "=1.0.154"
lambda_http = "=0.13.0"
aws-config = "=1.12.0"
aws-sdk-s3 = "=1.152.0"
aws-types = "~1.6.0"
tokio = { version = "=1.54.1", features = ["macros", "rt-multi-thread", "sync", "io-util"] }
tracing-subscriber = "=0.3.23"
