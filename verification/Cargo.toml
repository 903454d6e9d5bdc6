[package]
name = "lai"
version = "0.1.0"
edition = "2021"
publish = false

[dependencies]
notify = "8"
regex = "1"
serde = { version = "1", features = ["derive"] }
serde_json = "1"
ureq = { version = "3", features = ["json"] }
