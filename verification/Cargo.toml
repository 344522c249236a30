[package]
name = "hyperwasm"
version = "0.1.0"
edition = "2021"
publish = false

[dependencies]
bincode = "1"
rmp-serde = "1"
serde = "1"
serde_json = "1"
