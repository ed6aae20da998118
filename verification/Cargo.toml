[package]
name = "owl_tracker"
version = "0.1.0"
edition = "2021"
publish = false

[dependencies]
json = "0.12"
reqwest = { version = "0.12", default-features = false, features = ["blocking", "rustls-tls"] }
