[package]
name = "orxnre"
version = "0.1.0"
edition = "2021"
publish = false

[dependencies]
colored = "2"
console = "0.15"
noise = "0.9"
rand = "0.8"
serde = { version = "1", features = ["derive"] }
serde_json = "1"
zip = "2"
