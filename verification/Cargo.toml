[package]
name = "tetris"
version = "0.1.0"
edition = "2021"
publish = false

[dependencies]
rand = { version = "0.9", features = ["small_rng"] }
password-auth = "1"
serde = { version = "1", features = ["derive"] }
serde_json = "1"
clap = { version = "4", features = ["derive"] }
