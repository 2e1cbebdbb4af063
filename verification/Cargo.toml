[package]
name = "cert_machine"
version = "0.1.0"
edition = "2021"
publish = false

[dependencies]
openssl = "0.10"
base64 = "0.13"
clap = "2"
serde = { version = "1", features = ["derive"] }
serde_derive = "1"
serde_yaml = "0.8"
toml = "0.5"
