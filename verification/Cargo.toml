[package]
name = "graft"
version = "0.1.0"
edition = "2021"
publish = false

[dependencies]
anyhow = "1"
console = "*"
serde = { version = "1", features = ["derive"] }
serde_json = "1"
serde_yml = "*"
tempfile = "3"
