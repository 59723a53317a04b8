[package]
name = "paperos"
version = "0.1.0"
edition = "2021"
publish = false

[dependencies]
toml = "*"
serde = { version = "1", features = ["derive"] }
clap = { version = "4", features = ["derive"] }
gpiocdev = "*"
spidev = "*"
signal-hook = "*"
