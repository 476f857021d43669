[package]
name = "cava_bg"
version = "0.1.0"
edition = "2021"
publish = false

[dependencies]
urlencoding = "=2.1.3"
dirs = "=7.0.0"
serde = { version = "=1.0.229", features = ["derive"] }
serde_json = "=1.0.154"
toml = "=1.1.8"
clap = "=4.6.7"
walkdir = "=2.5.0"
anyhow = "=1.0.104"
log = "=0.4.35"
env_logger = { version = "=0.11.11", default-features = false }
libc = "=0.2.191"
ctrlc = "=3.5.2"
sd-notify = "=0.4.5"
smithay-client-toolkit = { version = "0.19", default-features = false, features = ["calloop"] }
wayland-client = "0.31"
