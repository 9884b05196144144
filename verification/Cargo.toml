[package]
name = "terra_script"
version = "0.1.0"
edition = "2021"
publish = false

[dependencies]
base64 = "=0.23.1"
serde = { version = "=1.0.229", features = ["derive"] }
serde_json = "=1.0.151"
terra-rust-api = "=1.2.20"
tokio = { version = "=1.53.2", features = ["rt", "time", "macros"] }
async-trait = "=0.1.92"
secp256k1 = "=0.20.3"
