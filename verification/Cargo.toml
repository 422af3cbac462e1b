[package]
name = "double_tap"
version = "0.1.0"
edition = "2021"
publish = false

[dependencies]
anyhow = "=1.0.104"
clap = { version = "=4.6.7", features = ["derive"] }
dialoguer = "=0.12.0"
env_logger = "=0.11.11"
evdev = "=0.13.2"
flexi_logger = "=0.31.10"
input-event-codes = "=6.2.0"
log = "=0.4.34"
serde = { version = "=1.0.229", features = ["derive"] }
toml = "=0.9.12"

[dev-dependencies]
libc = "=0.2.191"
