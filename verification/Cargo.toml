[package]
name = "talk_catalog"
version = "0.1.0"
edition = "2021"

[dependencies]
anyhow = "=1.0.104"
attohttpc = "=0.31.0"
chrono = "=0.4.45"
ego-tree = "=0.11.0"
rss = "=2.1.2"
scraper = "=0.27.0"
