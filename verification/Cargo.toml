[package]
name = "theymer"
version = "0.1.0"
edition = "2021"
publish = false

[dependencies]
indexmap = "2"
shellexpand = "3"
minijinja = "2"
serde = { version = "1", features = ["derive"] }
serde_json = "1"
toml = "0.8"
walkdir = "2"
log = "0.4"
thiserror = "1"
anyhow = "1"
