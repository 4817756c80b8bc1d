[package]
name = "enemy_ai_engine"
version = "0.1.0"
edition = "2021"
publish = false

[dependencies]
fixedbitset = "0.5"
rand = "0.8"
rand_chacha = "0.3"
serde = { version = "1", features = ["derive"] }
