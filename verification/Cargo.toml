[package]
name = "oxide_seo"
version = "0.1.0"
edition = "2021"
publish = false

[dependencies]
blake3 = "=1.8.7"
url = "=2.5.8"
regex = "=1.13.1"
quick-xml = "=0.42.0"
flate2 = "=1.1.10"
texting_robots = "=0.2.2"
semver = "=1.0.28"
serde = { version = "=1.0.229", features = ["derive"] }
serde_json = "=1.0.154"
toml = "=1.1.8"
lol_html = "=3.0.3"
scraper = "=0.29.0"
anyhow = "=1.0.104"
rusqlite = { version = "=0.41.1", features = ["bundled"] }
csv = "=1.4.0"
chrono = "=0.4.45"
tokio = { version = "1", features = ["rt-multi-thread", "macros", "sync", "time"] }
reqwest = { version = "0.12", default-features = false, features = ["rustls-tls", "gzip", "brotli", "json"] }
uuid = { version = "1", features = ["v4"] }
async-trait = "0.1"
thiserror = "2"
