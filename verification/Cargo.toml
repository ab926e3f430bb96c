[package]
name = "engarde"
version = "0.1.0"
edition = "2021"
publish = false

[dependencies]
rand = "0.8"
serde = { version = "1", features = ["derive"] }
serde_json = "1"
serde-aux = { version = "4", default-features = false }
serde_with = { version = "3", default-features = false, features = ["macros"] }
