[package]
name = "burn_pc"
version = "0.1.0"
edition = "2021"
publish = false

[dependencies]
anyhow = "=1.0.104"
serde = { version = "=1.0.229", features = ["derive"] }
burn = { version = "=0.16.1", default-features = false, features = ["std"] }

[dev-dependencies]
serde_json = "=1.0.154"
