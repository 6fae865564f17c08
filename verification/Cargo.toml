[package]
name = "plugin_host"
version = "0.1.0"
edition = "2021"
publish = false

[dependencies]
libloading = "*"
serde = { version = "*", features = ["derive"] }
serde_json = "*"
toml = "*"
uuid = { version = "*", features = ["v4"] }
walkdir = "*"
