[package]
name = "ustack"
version = "0.1.0"
edition = "2021"
publish = false

[dependencies]
anyhow = "*"
ctrlc = "*"
tracing = "*"
tracing-subscriber = { version = "*", features = ["env-filter"] }
