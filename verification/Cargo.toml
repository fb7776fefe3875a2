[package]
name = "lox"
version = "0.1.0"
edition = "2021"
publish = false

[dependencies]
rustc_apfloat = "*"
anyhow = "1"
atty = "0.2"
log = "0.4"
pretty_env_logger = "*"
thiserror = "1"
