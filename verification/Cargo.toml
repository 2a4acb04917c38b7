[package]
name = "semantic_owl_api"
version = "0.1.0"
edition = "2021"
publish = false

[dependencies]
indicatif = "0.17"
nom = "7"
serde = { version = "1", features = ["derive"] }
