[package]
name = "timetracking"
version = "0.1.0"
edition = "2021"
publish = false

[dependencies]
anyhow = "1"
bincode = "1"
chrono = { version = "0.4", features = ["serde"] }
config = "0.11"
iif = "*"
serde = { version = "1", features = ["derive"] }
serde_json = "1"
shellexpand = "2"
structopt = "0.3"
