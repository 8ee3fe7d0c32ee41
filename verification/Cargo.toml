[package]
name = "monsum"
version = "0.1.0"
edition = "2021"
publish = false

[dependencies]
anyhow = "1"
chrono = "0.4"
clap = { version = "3.2", features = ["derive"] }
enum-iterator = "1"
inquire = "*"

[dev-dependencies]
regex = "1"
