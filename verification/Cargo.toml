[package]
name = "llmfit_share"
version = "1.0.0"
edition = "2021"
publish = false

[dependencies]
base64 = "0.22"
dirs = "6"
serde = { version = "1", features = ["derive"] }
serde_json = "1"
ureq = { version = "3", features = ["json"] }
