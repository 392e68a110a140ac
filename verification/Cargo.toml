[package]
name = "grist"
version = "0.1.0"
edition = "2021"
publish = false

[dependencies]
sha1 = "*"
hex = "*"
serde = { version = "*", features = ["derive"] }
anyhow = "*"
clap = { version = "*", features = ["derive"] }
configparser = "*"
ini = "*"
env_logger = "*"
log = "*"
acidjson = "*"
