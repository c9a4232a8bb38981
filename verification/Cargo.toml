[package]
name = "replacer"
version = "0.1.0"
edition = "2021"
publish = false

[dependencies]
regex = "*"
clap = "*"
color-print = "*"
serde = { version = "*", features = ["derive"] }
toml = "*"
