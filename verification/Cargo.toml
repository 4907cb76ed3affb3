[package]
name = "mediawiki_config"
version = "0.1.0"
edition = "2021"
publish = false

[dependencies]
regex-syntax = "0.6"
serde = { version = "1", features = ["derive"] }
serde_json = { version = "1", features = ["raw_value"] }
reqwest = { version = "0.11", default-features = false, features = ["blocking", "json", "gzip", "deflate", "rustls-tls"] }
url = "2"
clap = "2"
log = "0.4"
simplelog = "0.12"
itertools = "0.10"
quote = "1"
