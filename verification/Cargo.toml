[package]
name = "space_game"
version = "0.1.0"
edition = "2021"
publish = false

[dependencies]
rand = "0.8"
roman = "*"
serde = { version = "1", features = ["derive"] }
serde_json = "1"
dirs = "*"
macroquad = { version = "0.4", default-features = false }
