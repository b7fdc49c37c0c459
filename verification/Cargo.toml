[package]
name = "aether"
version = "0.1.0"
edition = "2021"
publish = false

[dependencies]
serde_json = "*"
serde = { version = "*", features = ["derive"] }
ciborium = "*"
nalgebra-glm = "*"
