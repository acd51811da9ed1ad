[package]
name = "staticserve"
version = "0.1.0"
edition = "2021"
publish = false

[dependencies]
flate2 = "1"
mime = "0.3"
hyper = "0.11"
futures = "0.1"
futures-cpupool = "0.1"
log = "0.4"
pretty_env_logger = "0.2"
time = "0.1"
