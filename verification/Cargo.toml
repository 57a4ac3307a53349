[package]
name = "tide-pleco"
version = "0.1.0"
edition = "2021"
publish = false

[dependencies]
pleco = "0.5"
tide = "0.16"
async-std = { version = "1", features = ["attributes"] }
http-types = "2"
serde = { version = "1", features = ["derive"] }
serde_json = "1"
log = "0.4"
