[package]
name = "seesea"
version = "0.1.0"
edition = "2021"
publish = false

[dependencies]
uuid = { version = "1", features = ["v4"] }
reqwest = { version = "0.12", default-features = false, features = ["gzip", "json"] }
sled = "0.34"
sha2 = "0.10"
serde = { version = "1", features = ["derive"] }
serde_json = "1"
tokio = { version = "1", features = ["time", "rt", "rt-multi-thread", "macros", "sync"] }
url = "2"
chrono = { version = "0.4", default-features = false, features = ["clock", "std"] }
rand = "0.8"
toml = "0.8"
axum = "0.8"
