[package]
name = "telecom"
version = "0.1.0"
edition = "2021"
publish = false

[dependencies]
anyhow = "*"
argh = "*"
chrono = "*"
rand = "*"
rouille = "*"
serde = { version = "*", features = ["derive"] }
serde_json = "*"
