[package]
name = "pumpkin_assets"
version = "0.1.0"
edition = "2021"
publish = false

[dependencies]
serde = { version = "1", features = ["derive"] }
serde_json = "1"
sha1 = "0.10"
dashmap = "6"
tracing = "0.1"
ureq = "3"
zip = { version = "*", default-features = false, features = ["deflate"] }
