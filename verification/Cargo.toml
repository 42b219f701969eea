[package]
name = "holdem"
version = "0.1.0"
edition = "2021"
publish = false

[dependencies]
poker_eval = "=0.1.0"
secret-cosmwasm-std = { version = "=1.1.11", features = ["random"] }
secret-toolkit = { version = "=0.10.3", default-features = false, features = ["storage", "permit", "serialization"] }
serde = { version = "=1.0.229", features = ["derive"] }
cosmwasm-schema = "=1.1.10"
