[package]
name = "phroxy"
version = "0.1.0"
edition = "2021"
publish = false

[dependencies]
htmlescape = "=0.3.1"
phetch = { version = "=1.2.0", default-features = false }
regex = "=1.13.1"
rust-embed = { version = "=8.13.0", features = ["interpolate-folder-path"] }
threadpool = "=1.8.1"
vte = "=0.3.3"
