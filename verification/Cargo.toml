[package]
name = "zeroclaw_integrations"
version = "0.1.0"
edition = "2021"
publish = false

[dependencies]
anyhow = "*"
console = "*"
serde = { version = "*", features = ["derive"] }
