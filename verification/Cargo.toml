[package]
name = "school_directory"
version = "0.1.0"
edition = "2021"
publish = false

[dependencies]
anyhow = "=1.0.104"
csv = "=1.4.0"
dialoguer = { version = "=0.11.0", features = ["fuzzy-select"] }
serde = { version = "=1.0.229", features = ["derive"] }
serde_json = "=1.0.151"
ureq = "=2.12.1"
