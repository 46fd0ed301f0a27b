[package]
name = "subsurface-engine"
version = "0.1.0"
edition = "2021"
publish = false

[dependencies]
sha2 = "*"
reqwest = { version = "*", default-features = false, features = ["blocking", "json"] }
chrono = { version = "*", default-features = false, features = ["clock", "std"] }
uuid = { version = "*", features = ["v4"] }
base64 = "*"
serde = { version = "*", features = ["derive"] }
serde_json = "*"
thiserror = "*"
rusqlite = { version = "*", features = ["bundled"] }
dirs = "*"
tempfile = "*"
