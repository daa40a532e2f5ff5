[package]
name = "hnotify"
version = "0.1.0"
edition = "2021"
publish = false

[dependencies]
ring = "=0.17.14"
hex = "=0.4.3"
sha2 = "=0.11.0"
scraper = "=0.27.0"
chrono = "=0.4.45"
mysql = "*"
reqwest = { version = "=0.13.5", default-features = false, features = ["blocking"] }
tokio = { version = "=1.53.2", features = ["macros", "rt-multi-thread", "time"] }
clap = "=2.34.0"
dirs = "=7.0.0"
serde = { version = "=1.0.229", features = ["derive"] }
serde_json = "=1.0.151"
