[package]
name = "ngal"
version = "0.5.0"
edition = "2021"
publish = false

[dependencies]
anyhow = "1"
chrono = "0.4"
crossterm = "0.28"
image = { version = "0.25", default-features = false, features = ["png", "jpeg"] }
ratatui = "0.29"
regex = "1"
serde = { version = "1", features = ["derive"] }
serde_json = "1"
