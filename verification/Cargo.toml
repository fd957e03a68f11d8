[package]
name = "gamercade_draw"
version = "0.1.0"
edition = "2021"
publish = false

[dependencies]
gamercade_core = "*"
serde = { version = "*", features = ["derive"] }
