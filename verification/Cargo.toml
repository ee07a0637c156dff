[package]
name = "rfinex"
version = "0.1.0"
edition = "2021"
publish = false

[dependencies]
chrono = "0.4"
custom_error = "1"
hmac = "0.7"
reqwest = { version = "0.12", features = ["blocking"] }
rustc-serialize = "0.3"
serde_json = "1"
sha2 = "0.8"
