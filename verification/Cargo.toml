[package]
name = "foldback_lib"
version = "0.1.0"
edition = "2021"
publish = false

[dependencies]
chrono = "=0.4.45"
rand = "=0.8.8"
sha2 = "=0.10.9"
serde_json = "=1.0.154"
rusqlite = { version = "=0.31.0", features = ["bundled"] }
thiserror = "=1.0.69"

[dev-dependencies]
tempfile = "=3.27.0"
