[package]
name = "coconutpak"
version = "0.1.0"
edition = "2021"
publish = false

[dependencies]
xml-rs = "0.8"
pulldown-cmark = "0.9"
html_parser = "0.6"
ammonia = "3"
html-minifier = "3"
html-escape = "0.2"
language-tags = "0.3"
semver = "1"
base64 = "0.13"
license = "3"
serde = { version = "1", features = ["derive"] }
toml = "0.5"
walkdir = "2"
dirs = "4"
clap = { version = "3", features = ["derive"] }
