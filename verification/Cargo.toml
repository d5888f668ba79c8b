[package]
name = "app_structure"
version = "0.1.0"
edition = "2021"
publish = false

[dependencies]
indexmap = { version = "2.7.1", features = ["serde"] }
serde = { version = "1.0.229", features = ["derive"] }
serde_json = "1.0.154"
