[package]
name = "registry_completions"
version = "0.1.0"
edition = "2021"
publish = false

[dependencies]
regex = "1"
url = "2"
serde = { version = "1", features = ["derive"] }
serde_json = "1"

[dev-dependencies]
percent-encoding = "2"
