[package]
name = "octopus"
version = "0.1.0"
edition = "2021"
publish = false

[dependencies]
rand = "0.8"
anyhow = "1"
aya = "0.13"
aya-log = "0.2"
clap = { version = "4", features = ["derive"] }
colored = "2"
env_logger = "0.11"
indicatif = "0.17"
log = "0.4"
memmap2 = "0.9"
tokio = { version = "1", features = ["macros", "rt-multi-thread", "io-std", "io-util", "time", "sync"] }
