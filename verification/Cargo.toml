[package]
name = "tor_controller"
version = "0.1.0"
edition = "2021"
publish = false

[dependencies]
hex = "0.4"
rust-crypto = "0.2"
rand = "0.8"
regex = "1"
timer = "0.2"
chrono = "0.4"
log = "0.4"
env_logger = "0.10"
