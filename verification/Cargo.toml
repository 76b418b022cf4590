[package]
name = "endstone"
version = "0.1.0"
edition = "2021"
publish = false

[dependencies]
aes = "0.8"
miniz_oxide = "0.7"
rand = "0.8"
reqwest = { version = "0.11", default-features = false, features = ["blocking"] }
serde = { version = "1", features = ["derive"] }
serde_json = "1"
sha1 = "0.10"
