[package]
name = "stevio_code"
version = "0.1.0"
edition = "2021"
publish = false

[dependencies]
clap = { version = "*", features = ["derive"] }
dirs = "*"
inquire = "*"
serde = { version = "*", features = ["derive"] }
toml = "*"
walkdir = "*"
