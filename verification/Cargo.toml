[package]
name = "sui_id"
version = "0.1.0"
edition = "2021"
publish = false

[dependencies]
anyhow = "=1.0.104"
base64ct = { version = "=1.8.3", features = ["alloc"] }
chrono = { version = "=0.4.45", default-features = false, features = ["std"] }
qrcode = { version = "0.14", default-features = false, features = ["svg"] }
rand = "=0.8.8"
rusqlite = { version = "=0.41.1", features = ["bundled"] }
serde = { version = "=1.0.229", features = ["derive"] }
serde_json = "=1.0.154"
sha2 = "=0.10.9"
subtle = "=2.6.1"
toml = "=0.8.23"
