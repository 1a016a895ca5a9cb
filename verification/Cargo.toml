[package]
name = "dupscan"
version = "0.1.0"
edition = "2021"
publish = false

[dependencies]
regex = "1"
sha256 = { version = "1", default-features = false }
