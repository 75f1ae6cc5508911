[package]
name = "poker_hand"
version = "0.1.0"
edition = "2021"
publish = false

[dependencies]
rand = "0.8"
serde = { version = "1", features = ["derive"] }
serde_with = "3"
tide = "0.16"
async-std = { version = "1", features = ["attributes"] }
