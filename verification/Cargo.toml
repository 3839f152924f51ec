[package]
name = "koko_keywords"
version = "0.1.0"
edition = "2021"
publish = false

[dependencies]
regex = "1"
serde_json = "1"
cache_control = "*"
ureq = "2"
lazy_static = "1"
