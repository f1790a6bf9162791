[package]
name = "stm32_emu"
version = "0.1.0"
edition = "2021"
publish = false

[dependencies]
anyhow = "*"
clap = { version = "*", features = ["derive"] }
env_logger = "*"
log = "*"
png = "*"
serde = { version = "*", features = ["derive"] }
serde_yaml = "*"
svd-parser = "*"
