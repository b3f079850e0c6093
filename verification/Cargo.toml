[package]
name = "codex_switcher"
version = "1.2.0"
edition = "2021"
publish = false

[dependencies]
chrono = "0.4"
serde_json = "1"
