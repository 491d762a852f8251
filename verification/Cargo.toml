[package]
name = "diagnostic_triage"
version = "0.1.0"
edition = "2021"
publish = false

[dependencies]
camino = "1"
rustix = { version = "1", features = ["fs", "process"] }
serde = { version = "1", features = ["derive"] }
serde_json = "1"
thiserror = "2"
toml = "*"
url = "2.5"
wait-timeout = "0.2"
