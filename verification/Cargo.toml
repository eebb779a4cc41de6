[package]
name = "mmdb_downloader"
version = "0.1.0"
edition = "2021"
publish = false

[dependencies]
anyhow = "1"
futures = "0.3"
log = "0.4"
reqwest = { version = "0.11", default-features = false, features = ["rustls-tls", "stream"] }
sha256 = "1"
tokio = { version = "1", features = ["fs", "io-util", "rt", "sync", "time"] }
