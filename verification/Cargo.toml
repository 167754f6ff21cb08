[package]
name = "iron_fauna"
version = "0.1.0"
edition = "2021"
publish = false

[dependencies]
serde = { version = "1", features = ["derive"] }
serde_json = "1"
macroquad = { version = "0.4", default-features = false }
