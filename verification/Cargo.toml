[package]
name = "kinesis_payload"
version = "0.1.0"
edition = "2021"
publish = false

[dependencies]
aws-credential-types = "=1.3.0"
aws-sigv4 = "=1.6.0"
aws-smithy-runtime-api = "=1.19.0"
base64 = "=0.23.1"
http = "=1.5.0"
uuid = { version = "=1.27.0", features = ["v4"] }

[dev-dependencies]
serde_json = "=1.0.151"
