[package]
name = "hydro"
version = "0.1.0"
edition = "2021"
publish = false

[dependencies]
clap = { version = "4", features = ["derive"] }
cli-table = { version = "*", default-features = false }
easy-scraper = "*"
regex = "1"
reqwest = { version = "0.11", features = ["blocking"] }
serde_json = "1"
