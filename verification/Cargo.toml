[package]
name = "podchiver"
version = "0.1.0"
edition = "2021"
publish = false

[dependencies]
clap = { version = "4", features = ["cargo"] }
html-escape = "0.2"
opml = "1"
rss = { version = "2", default-features = false }
ureq = "3"
url = "2"
