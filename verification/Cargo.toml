[package]
name = "buddies_ai"
version = "0.1.0"
edition = "2021"
publish = false

[dependencies]
yaml-rust = "=0.4.5"
async-openai = { version = "=0.42.2", features = ["chat-completion"] }
