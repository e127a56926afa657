[package]
name = "pubsys_ami"
version = "0.1.0"
edition = "2021"
publish = false

[dependencies]
aws-sdk-ebs = { version = "=1.119.0", default-features = false }
aws-sdk-sts = { version = "=1.124.0", default-features = false }
clap = { version = "=4.6.7", features = ["derive"] }
futures = "=0.3.34"
log = "=0.4.35"
serde = { version = "=1.0.229", features = ["derive"] }
toml = "=0.9.12"

[dev-dependencies]
serde_json = "=1.0.154"
