[package]
name = "img2pdf"
version = "0.1.0"
edition = "2021"
publish = false

[dependencies]
anyhow = "=1.0.104"
clap = { version = "=4.6.7", features = ["derive"] }
colored = "=2.2.0"
human-sort = "=0.2.2"
indicatif = "=0.17.11"
num = "=0.4.3"
printpdf = { version = "=0.5.3", features = ["embedded_images"] }
