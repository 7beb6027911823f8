[package]
name = "clipboard_core"
version = "0.1.0"
edition = "2021"
publish = false

[dependencies]
blake3 = "*"
chrono = "*"
image = { version = "*", default-features = false, features = ["png"] }
