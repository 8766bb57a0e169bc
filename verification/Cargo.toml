[package]
name = "zenn2press"
version = "0.1.0"
edition = "2021"
publish = false

[dependencies]
serde_yaml = "*"
clap = { version = "*", features = ["derive"] }
colored = "*"
figlet-rs = "*"
indicatif = "*"
tokio = { version = "*", features = ["rt", "macros"] }
futures = "*"
