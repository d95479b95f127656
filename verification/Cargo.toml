[package]
name = "qeet"
version = "0.1.3"
edition = "2021"
publish = false

[dependencies]
clap = { version = "4", features = ["derive"] }
console = "*"
dunce = "1"
etcetera = "*"
indicatif = "*"
serde = { version = "1", features = ["derive"] }
thiserror = "*"
tokio = { version = "1", features = ["full"] }
toml = "*"
