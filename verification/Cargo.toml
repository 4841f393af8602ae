[package]
name = "macdiet"
version = "0.1.0"
edition = "2021"
publish = false

[dependencies]
anyhow = "*"
clap = { version = "*", features = ["derive"] }
globset = "*"
libc = "*"
serde = { version = "*", features = ["derive"] }
serde_json = "*"
time = { version = "*", features = ["formatting"] }
toml = "*"
wait-timeout = "*"
walkdir = "*"
