[package]
name = "zexec"
version = "0.1.0"
edition = "2021"
publish = false

[dependencies]
anyhow = "1"
base64 = "*"
clap = { version = "*", features = ["derive"] }
json = "*"
rand = "0.8"
rocket = "*"
zenroom = "*"
