[package]
name = "gifff"
version = "0.1.0"
edition = "2021"
publish = false

[dependencies]
rand = "0.8"
dirs = "*"
gumdrop = "*"
serde = { version = "*", features = ["derive"] }
serde_json = "*"
reqwest = { version = "*", default-features = false, features = ["blocking", "json"] }
