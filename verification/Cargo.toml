[package]
name = "camt53"
version = "0.1.0"
edition = "2021"
publish = false

[dependencies]
clap = "*"
csv = "*"
glob = "*"
minidom = "*"
serde = { version = "*", features = ["derive"] }
