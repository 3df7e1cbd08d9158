[package]
name = "massa_models"
version = "0.1.0"
edition = "2021"
publish = false

[dependencies]
bs58 = { version = "*", features = ["check"] }
serde = { version = "*", features = ["derive"] }

[dev-dependencies]
blake3 = "*"
