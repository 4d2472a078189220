[package]
name = "fluent_translate"
version = "0.1.0"
edition = "2021"
publish = false

[dependencies]
base64 = "0.13"
escaper = "0.1"
serde = { version = "1", features = ["derive"] }
serde_json = "1"
reqwest = { version = "0.11", default-features = false, features = ["blocking"] }
rustls = "0.16"
clap = "2"
log = "0.4"
simplelog = "0.12"
indicatif = "0.17"
fluent-syntax = "0.11"
