[package]
name = "shipcat"
version = "0.1.0"
edition = "2021"
publish = false

[dependencies]
regex = "=1.13.1"
serde = { version = "=1.0.229", features = ["derive"] }
serde_yaml = "=0.9.34"
log = "=0.4.34"
openssl-probe = "=0.1.6"
slack-hook = { version = "=0.9.1", features = ["blocking"] }
