[package]
name = "remote_uci"
version = "0.1.0"
edition = "2021"
publish = false

[dependencies]
serde_urlencoded = "*"
serde = { version = "*", features = ["derive"] }
serde_with = "*"
clap = { version = "*", features = ["derive"] }
rand = "*"
sysinfo = "*"
