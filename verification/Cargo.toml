[package]
name = "wireless_bridge"
version = "0.1.0"
edition = "2021"
publish = false

[dependencies]
zbus = "*"
futures = "*"
log = "*"
pretty_env_logger = "*"
