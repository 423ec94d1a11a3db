[package]
name = "mcd-cli"
version = "0.1.0"
edition = "2021"
publish = false

[dependencies]
anyhow = "=1.0.104"
clap = { version = "=4.6.7", features = ["derive", "env"] }
crossterm = "=0.28.1"
image = { version = "=0.25.10", default-features = false, features = ["png"] }
qrcode = "=0.14.1"
ratatui = "=0.29.0"
reqwest = { version = "=0.12.28", default-features = false, features = ["json", "rustls-tls"] }
serde = { version = "=1.0.229", features = ["derive"] }
serde_json = "=1.0.154"
tabled = "=0.16.0"
tokio = { version = "=1.54.1", features = ["macros", "rt-multi-thread"] }
toml = "0.8"
unicode-width = "=0.2.0"
