[package]
name = "syd"
version = "0.1.0"
edition = "2021"
publish = false

[dependencies]
toml = "*"
simple-expand-tilde = "*"
git2 = "*"
clap = "*"
env_logger = "*"
log = "*"
