[package]
name = "shiyue"
version = "0.1.0"
edition = "2021"
publish = false

[dependencies]
anyhow = "=1.0.104"
chrono = "=0.4.45"
clap = { version = "=4.6.7", default-features = false, features = ["derive", "error-context", "help", "std", "usage"] }
eframe = { version = "=0.37.0", default-features = false, features = ["default_fonts", "glow", "x11"] }
feed-rs = "=2.4.0"
open = "=5.4.5"
reqwest = { version = "=0.12.28", default-features = false, features = ["blocking", "rustls-tls"] }
rusqlite = { version = "=0.41.1", features = ["bundled"] }
scraper = { version = "=0.29.0", default-features = false, features = ["errors"] }
serde_json = "=1.0.154"
sha2 = "=0.10.9"
tracing = { version = "=0.1.44", default-features = false, features = ["std"] }
