[package]
name = "branchless"
version = "0.1.0"
edition = "2021"
publish = false

[dependencies]
cursive_core = "0.3"
eyre = "0.6"
serde = { version = "1", features = ["derive"] }
serde_json = "1"
