[package]
name = "filewatch"
version = "0.1.0"
edition = "2021"
publish = false

[dependencies]
regex = "*"
anyhow = "*"
clap = { version = "*", features = ["derive"] }
console = "*"
indicatif = "*"
log = "*"
rayon = "*"
serde = { version = "*", features = ["derive"] }
serde_yaml = "*"
simple_logger = "*"
walkdir = "*"
