[package]
name = "pack_cache"
version = "0.1.0"
edition = "2021"
publish = false

[dependencies]
lru = "*"
redis = { version = "*", default-features = false }
clap = "*"

[dev-dependencies]
serde_json = "*"
