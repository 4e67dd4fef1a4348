[package]
name = "poor_downloader"
version = "0.1.0"
edition = "2021"
publish = false

[dependencies]
aria2-ws = "*"
tokio = { version = "1", features = ["full"] }
fltk = "*"
anyhow = "1"
