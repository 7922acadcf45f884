[package]
name = "stock_tracker"
version = "0.1.0"
edition = "2021"
publish = false

[dependencies]
reqwest = { version = "=0.12.28", default-features = false, features = ["blocking", "rustls-tls"] }
scraper = "=0.29.0"
structopt = "=0.3.26"
url = "=2.5.8"
