[package]
name = "ata"
version = "0.1.0"
edition = "2021"
publish = false

[dependencies]
clap = { version = "=4.6.7", features = ["derive"] }
clearscreen = "=5.0.0"
serde = { version = "=1.0.229", features = ["derive"] }
serde_json = "=1.0.154"
sevenz-rust = "*"
unrar = "*"
walkdir = "=2.5.0"
zip = { version = "=9.0.5", default-features = false, features = ["deflate"] }
