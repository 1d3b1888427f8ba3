[package]
name = "filego"
version = "0.0.1"
edition = "2021"
publish = false

[dependencies]
chrono = { version = "=0.4.45", features = ["serde"] }
pinyin = { version = "=0.11.0", default-features = false, features = ["plain"] }
serde = { version = "1", features = ["derive"] }
serde_json = "1"
uuid = { version = "=1.29.0", features = ["serde", "v4"] }
