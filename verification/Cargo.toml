[package]
name = "decker"
version = "0.1.0"
edition = "2021"
publish = false

[dependencies]
anyhow = "=1.0.104"
crossbeam-channel = "=0.5.17"
log = "=0.4.34"
portable-pty = "=0.9.0"
serde = { version = "=1.0.229", features = ["derive"] }
serde_json = "=1.0.154"
simple-error = "=0.3.3"
simplelog = "=0.12.2"
termion = "=4.0.6"
toml = "=1.1.8"

[dev-dependencies]
regex = "1"
