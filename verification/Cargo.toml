[package]
name = "star"
version = "0.1.0"
edition = "2021"
publish = false

[dependencies]
serde = { version = "=1.0.229", features = ["derive"] }
serde_json = "=1.0.154"
ureq = { version = "=2.12.1", default-features = false, features = ["json"] }
rand = "=0.8.8"
rusqlite = { version = "0.31", features = ["bundled"] }
anyhow = "1"
