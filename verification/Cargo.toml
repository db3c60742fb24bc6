[package]
name = "rt_navi"
version = "0.1.0"
edition = "2021"
publish = false

[dependencies]
clap = "=4.6.7"
env_logger = "=0.11.11"
gnss-protos = { version = "=0.0.2", features = ["gps"] }
gnss-rtk = "=0.8.0"
log = "=0.4.34"
nalgebra = "=0.35.0"
ratatui = "=0.30.2"
