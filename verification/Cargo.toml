[package]
name = "days"
version = "0.1.0"
edition = "2021"
publish = false

[dependencies]
chrono = "0.4"
csv = "1"
dirs = "*"
env_logger = "*"
exitcode = "1"
