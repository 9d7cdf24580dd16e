[package]
name = "ethrex_levm"
version = "0.1.0"
edition = "2021"
publish = false

[dependencies]
ethereum-types = "0.15"
serde = { version = "1", features = ["derive"] }
