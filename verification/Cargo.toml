[package]
name = "wm9000"
version = "0.1.0"
edition = "2021"
publish = false

[dependencies]
scraper = "*"
ego-tree = "*"
genpdf = "*"
chrono = "*"
serde = { version = "*", features = ["derive"] }
serde_json = "*"
