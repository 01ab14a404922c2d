[package]
name = "openapiv3"
version = "0.1.0"
edition = "2021"
publish = false

[dependencies]
serde_json = "*"
url = "*"
semver = "*"
email_address = "*"

[dev-dependencies]
