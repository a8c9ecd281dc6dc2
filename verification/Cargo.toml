[package]
name = "receipt_analyzer"
version = "0.1.0"
edition = "2021"
publish = false

[dependencies]
anyhow = "1"
clap = { version = "4", features = ["derive"] }
fuzzy-matcher = "0.3"
image = { version = "0.25", default-features = false, features = ["jpeg", "png", "tiff", "bmp"] }
prettytable-rs = { version = "0.10", default-features = false }
regex = "1"
tesseract = "*"
walkdir = "2"
