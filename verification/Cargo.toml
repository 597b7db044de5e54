[package]
name = "fwsite"
version = "0.1.0"
edition = "2021"
publish = false

[dependencies]
chrono = "*"
ego-tree = "*"
pulldown-cmark = "*"
scraper = "*"
serde_yml = "*"
