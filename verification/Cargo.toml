[package]
name = "flock"
version = "0.1.0"
edition = "2021"
publish = false

[dependencies]
flume = "*"
dashmap = "*"
rand = "*"
nom = "*"
num_cpus = "*"
log = "*"
pretty_env_logger = "*"
