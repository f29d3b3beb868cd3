[package]
name = "jslinks"
version = "0.1.0"
edition = "2021"
publish = false

[dependencies]
url = "*"
reqwest = { version = "*", default-features = false }
tokio = { version = "*", features = ["rt-multi-thread", "macros"] }
clap = { version = "*", features = ["derive"] }
crossbeam-channel = "*"
log = "*"
simple_logger = "*"
color-eyre = "*"
anyhow = "*"
