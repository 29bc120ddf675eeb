[package]
name = "oncall_roster"
version = "0.1.0"
edition = "2021"
publish = false

[dependencies]
discord = "*"
serde = { version = "1", features = ["derive"] }
serde_json = "1"
