[package]
name = "sitegen"
version = "0.1.0"
edition = "2021"
publish = false

[dependencies]
chrono = "*"
clap = { version = "*", features = ["derive"] }
pathdiff = "*"
rss-gen = "*"
serde = { version = "*", features = ["derive"] }
serde_json = "*"
thiserror = "*"
