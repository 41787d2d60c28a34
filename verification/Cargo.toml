[package]
name = "rdm"
version = "0.1.0"
edition = "2021"
publish = false

[dependencies]
reqwest = { version = "0.12", default-features = false, features = ["stream"] }
sha2 = "0.10"
serde = { version = "1", features = ["derive"] }
serde_json = "1"
futures = "0.3"
notify = "*"
flate2 = "1"
tar = "0.4"
zip = { version = "*", default-features = false, features = ["deflate"] }
self-replace = "1"
