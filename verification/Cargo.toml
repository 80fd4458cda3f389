[package]
name = "metalog"
version = "0.1.0"
edition = "2021"
publish = false

[dependencies]
sled = "0.34"
serde_json = "1"
serde = { version = "1", features = ["derive"] }
async-raft = "0.6"
async-trait = "0.1"
