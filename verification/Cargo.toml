[package]
name = "podcast_downloader"
version = "0.1.0"
edition = "2021"
publish = false

[dependencies]
rss = "*"
anyhow = "*"
clap = { version = "*", features = ["derive"] }
indicatif = "*"
inquire = "*"
reqwest = { version = "*", default-features = false, features = ["blocking"] }
