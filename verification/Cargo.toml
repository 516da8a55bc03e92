[package]
name = "dsboard"
version = "0.1.0"
edition = "2021"
publish = false

[dependencies]
anyhow = "1"
csv = "=1.4.0"
serde = { version = "1", features = ["derive"] }
serde_json = "=1.0.154"
thiserror = "2"
tracing = "0.1"
waki = "=0.5.1"
zip = { version = "8.6", default-features = false, features = ["deflate"] }
