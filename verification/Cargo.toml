[package]
name = "conservation_enforcer"
version = "0.1.1"
edition = "2021"
publish = false

[dependencies]
fluxvm = "*"
serde = { version = "1", features = ["derive"] }
serde_json = "1"
