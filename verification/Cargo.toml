[package]
name = "reserves_verifier"
version = "0.1.0"
edition = "2021"
publish = false

[dependencies]
actix-web = "=4.18.1"
base64 = "=0.13.1"
bdk = { version = "=0.27.1", features = ["electrum"] }
bdk-reserves = "=0.27.1"
bitcoinconsensus = "=0.19.0-3"
lazy_static = "=1.5.1"
prometheus = "=0.13.4"
serde = { version = "=1.0.229", features = ["derive"] }
serde_json = "=1.0.154"
