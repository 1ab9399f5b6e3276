[package]
name = "calends"
version = "0.1.0"
edition = "2021"
publish = false

[dependencies]
base64 = "0.13"
chrono = { version = "0.4", default-features = false, features = ["std", "serde"] }
fnv = "1.0"
serde = { version = "1.0", features = ["derive"] }
thiserror = "1.0"
