[package]
name = "containertyrant"
version = "0.1.0"
edition = "2021"
publish = false

[dependencies]
bollard = "0.17"
chrono = { version = "0.4", default-features = false, features = ["std", "now"] }
csv = "1.3"
iced = { version = "0.12", default-features = false, features = ["tokio"] }
serde = { version = "1", features = ["derive"] }
serde_json = "1"
serde_yaml = "0.9"
toml = "0.8"
