[package]
name = "phylum_cli"
version = "0.1.0"
edition = "2021"
publish = false

[dependencies]
url = "=2.5.8"
regex = "=1.13.1"
base64 = "=0.21.7"
sha2 = "=0.10.9"
rand = "=0.8.8"
unicode-width = "=0.1.14"
console = "=0.16.6"
home = "=0.5.12"
serde = { version = "=1.0.229", features = ["derive"] }
serde_json = "=1.0.154"
toml = "=1.1.8"
clap = "=4.6.7"
chrono = "=0.4.45"
walkdir = "=2.5.0"
tempfile = "=3.27.0"
anyhow = "=1.0.104"
uuid = "=1.29.0"
purl = "*"
textwrap = "=0.16.4"
serde_yaml = "=0.9.34"
reqwest = { version = "=0.12.28", default-features = false, features = ["blocking", "json", "rustls-tls"] }
