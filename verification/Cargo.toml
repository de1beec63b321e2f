[package]
name = "spam_detector"
version = "0.1.0"
edition = "2021"
publish = false

[dependencies]
regex = "1"
serde = { version = "1", features = ["derive"] }
async-trait = "0.1"
futures = "0.3"
