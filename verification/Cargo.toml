[package]
name = "askme"
version = "0.1.0"
edition = "2021"
publish = false

[dependencies]
rand = "*"
clap = { version = "*", features = ["derive"] }
colored = "*"
figlet-rs = "*"
inquire = "*"
serde = { version = "*", features = ["derive"] }
serde_yaml = "*"
