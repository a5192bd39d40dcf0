[package]
name = "corpora-atlas"
version = "0.1.0"
edition = "2021"
publish = false

[dependencies]
regex = "1"
html-escape = "0.2"
scraper = "*"
serde = { version = "1", features = ["derive"] }
serde_json = "1"
serde_yaml = "0.9"
clap = { version = "4", features = ["derive"] }
tokio = { version = "1", features = ["full"] }
reqwest = { version = "0.12", default-features = false, features = ["json", "rustls-tls"] }
tokio-tungstenite = "*"
futures-util = "0.3"
async-trait = "0.1"
thiserror = "*"
anyhow = "1"
dirs = "*"
fs2 = "0.4"
