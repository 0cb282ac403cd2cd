[package]
name = "precompress"
version = "0.1.0"
edition = "2021"
publish = false

[dependencies]
anyhow = "=1.0.104"
brotli = { version = "=9.0.0", features = ["portable-float"] }
clap = { version = "=4.6.7", features = ["derive"] }
crossbeam = "=0.8.5"
flate2 = "=1.1.10"
ignore = "=0.4.33"
mimalloc = "=0.1.52"
zstd = "=0.13.3"
