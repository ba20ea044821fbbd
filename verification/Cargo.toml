[package]
name = "limbcheck"
version = "0.1.0"
edition = "2021"
publish = false

[dependencies]
num-bigint = "0.4"
rand = "0.8"
wgpu = "*"
flume = "*"
pollster = "*"
env_logger = "*"
tinytemplate = "*"
serde = { version = "1", features = ["derive"] }
