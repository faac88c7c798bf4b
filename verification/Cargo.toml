[package]
name = "goup"
version = "0.1.0"
edition = "2021"
publish = false

[dependencies]
anyhow = "1"
clap = { version = "4", features = ["derive"] }
console = "0.15"
directories = "5"
flate2 = "1"
indicatif = "0.17"
reqwest = { version = "0.11", features = ["blocking", "json"] }
serde = { version = "1", features = ["derive"] }
spinoff = "*"
tar = "0.4"
tempfile = "3"
thiserror = "1"
whattheshell = "*"
zip = { version = "0.6", default-features = false, features = ["deflate"] }
