[package]
name = "modpack"
version = "0.1.0"
edition = "2021"
publish = false

[dependencies]
anyhow = "*"
camino = "*"
clap = { version = "*", features = ["derive"] }
encoding_rs = "=0.8.42"
ignore = "*"
indicatif = "*"
json5 = "=1.3.1"
oxipng = "=10.2.1"
quick-xml = "=0.42.0"
serde_json = { version = "=1.0.151", features = ["preserve_order"] }
tar = "=0.4.46"
zip = "=8.6.0"
zstd = "=0.13.3"
