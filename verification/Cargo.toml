[package]
name = "midi2json"
version = "0.1.0"
edition = "2021"
publish = false

[dependencies]
midly = "=0.1.3"
clap = "=2.34.0"
serde = { version = "=1.0.229", features = ["derive"] }
serde_json = "=1.0.154"
