[package]
name = "crackleaf"
version = "0.1.0"
edition = "2021"
publish = false

[dependencies]
anyhow = "1"
dirs = "5"
image = { version = "0.25", default-features = false, features = ["png"] }
rfd = "0.15"
