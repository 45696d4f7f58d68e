[package]
name = "chatgpt"
version = "0.1.0"
edition = "2021"
publish = false

[dependencies]
clap = { version = "=4.6.7", features = ["derive"] }
color-eyre = "=0.6.5"
console = "=0.16.6"
dialoguer = { version = "=0.12.0", features = ["history"] }
directories = "=6.0.0"
figment = { version = "=0.10.19", features = ["toml", "env"] }
indicatif = "=0.18.6"
reqwest = { version = "=0.12.28", default-features = false, features = ["blocking", "rustls-tls"] }
serde = { version = "=1.0.229", features = ["derive"] }
