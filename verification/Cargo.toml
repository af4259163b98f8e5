[package]
name = "ice_commander"
version = "0.1.0"
edition = "2021"
publish = false

[dependencies]
serde = { version = "=1.0.229", features = ["derive"] }
serde_json = "=1.0.154"
uuid = { version = "=1.29.0", features = ["v4", "v5"] }
hostname = "=0.4.2"
dirs = "=5.0.1"
crossterm = "=0.28.1"
chrono = "0.4"
