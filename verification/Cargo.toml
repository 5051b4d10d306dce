[package]
name = "record_linker"
version = "0.1.0"
edition = "2021"
publish = false

[dependencies]
blake3 = "*"
glob = "*"
rand = "*"
clap = { version = "4", features = ["derive"] }
env_logger = "*"
log = "*"
