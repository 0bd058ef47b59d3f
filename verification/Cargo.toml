[package]
name = "eluma"
version = "0.1.0"
edition = "2021"
publish = false

[dependencies]
url = "2"
uuid = { version = "1", features = ["v5"] }
toml = "*"
toml_edit = "*"
serde = { version = "1", features = ["derive"] }
serde_json = "1"
thiserror = "*"
tracing = "0.1"
tokio = { version = "1", features = ["rt", "time", "sync", "macros"] }
