[package]
name = "proxy_rs"
version = "0.1.0"
edition = "2021"
publish = false

[dependencies]
ipnetwork = "*"
log = "*"
anyhow = "*"
async-trait = "*"
tokio = { version = "1", features = ["full"] }
serde = { version = "1", features = ["derive"] }
serde_json = "1"
toml = "*"
serde_with = "*"
clap = { version = "4", features = ["derive"] }
fern = "*"
hickory-resolver = "*"
ping = "*"
maxminddb = "*"
tokio-rustls = "*"
rustls-pemfile = "*"
webpki-roots = "*"
