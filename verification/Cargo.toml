[package]
name = "boa"
version = "0.1.0"
edition = "2021"
publish = false

[dependencies]
gc = { version = "0.3", features = ["derive"] }
rug = "1"
serde = { version = "1", features = ["derive"] }
serde_json = { version = "1", features = ["preserve_order"] }
