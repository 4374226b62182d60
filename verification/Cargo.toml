[package]
name = "zest_backend"
version = "0.1.0"
edition = "2021"
publish = false

[dependencies]
argonautica = "0.2"
serde = "1"
serde_derive = "1"
serde_json = "1"
