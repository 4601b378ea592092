[package]
name = "rme_editor"
version = "0.1.0"
edition = "2021"
publish = false

[dependencies]
ahash = "0.8"
smallvec = "1"
lzma-rs = { version = "0.3", features = ["raw_decoder"] }
serde_json = "1"
env_logger = "0.11"
