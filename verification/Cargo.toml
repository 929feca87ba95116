[package]
name = "cosmicsnip"
version = "0.1.0"
edition = "2021"
publish = false

[dependencies]
tiny-skia = "=0.11.4"
png = "=0.17.16"
dirs = "=6.0.0"
clap = { version = "=4.6.7", features = ["derive"] }
env_logger = "=0.11.11"
jiff = "=0.2.39"
log = "=0.4.35"
tokio = { version = "=1.54.1", features = ["rt"] }
wl-clipboard-rs = "=0.9.5"
