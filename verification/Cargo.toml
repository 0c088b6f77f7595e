[package]
name = "perplexity_web_api"
version = "0.1.0"
edition = "2021"
publish = false

[dependencies]
serde_json = "1"
