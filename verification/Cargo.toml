[package]
name = "scriptisto"
version = "2.2.0"
edition = "2021"
publish = false

[dependencies]
anyhow = "1"
clap = { version = "4", features = ["derive"] }
dirs = "*"
env_logger = "*"
exec = "*"
failure = "0.1"
include_dir = "*"
log = "0.4"
md5 = "*"
number_prefix = "*"
prettytable-rs = "*"
serde = { version = "1", features = ["derive"] }
serde_derive = "1"
serde_yaml = "*"
users = "*"
walkdir = "2"
