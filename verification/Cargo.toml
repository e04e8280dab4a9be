[package]
name = "mech3ax"
version = "0.1.0"
edition = "2021"
publish = false

[dependencies]
anyhow = "1"
serde = { version = "1", features = ["derive"] }
serde_json = "1"
zip = { version = "0.5", default-features = false, features = ["deflate"] }
