[package]
name = "hacker_news"
version = "0.1.0"
edition = "2021"
publish = false

[dependencies]
chrono = "0.4"
idna = "1"
url = "2"
serde = { version = "1", features = ["derive"] }
serde_json = "1"
rmp-serde = "1"
anyhow = "1"
thiserror = "2"
log = "0.4"
futures = "0.3"
tokio = { version = "1", features = ["rt-multi-thread", "macros", "sync", "time", "fs"] }
reqwest = { version = "0.12", default-features = false, features = ["json", "rustls-tls", "gzip", "stream"] }
tantivy = "*"
app_dirs2 = "2"
libc = "0.2"
