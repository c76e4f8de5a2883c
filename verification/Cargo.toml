[package]
name = "stomata"
version = "0.1.0"
edition = "2021"
publish = false

[dependencies]
base64 = "=0.23.1"
ring = "=0.17.14"
websocket = { version = "=0.27.1", default-features = false, features = ["sync"] }
mysql = { version = "=28.0.3", default-features = false, features = ["minimal-rust"] }
config = { version = "=0.15.27", default-features = false, features = ["toml"] }
