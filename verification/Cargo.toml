[package]
name = "nas_notifier"
version = "0.1.0"
edition = "2021"
publish = false

[dependencies]
libzetta = "*"
log = "*"
reqwest = { version = "*", features = ["blocking", "json"] }
serde = { version = "*", features = ["derive"] }
simple_logger = "*"
toml = "*"
