[package]
name = "ghostbrew"
version = "0.1.0"
edition = "2021"
publish = false

[dependencies]
anyhow = "1"
ctrlc = "3"
dirs = "*"
env_logger = "*"
libbpf-rs = "*"
libc = "0.2"
log = "0.4"
nix = { version = "*", features = ["user"] }
