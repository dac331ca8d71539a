[package]
name = "dot_dev"
version = "0.1.0"
edition = "2021"
publish = false

[dependencies]
clap = "2"
crossterm = "0.12"
failure = "0.1"
log = "0.4"
serde = { version = "1", features = ["derive"] }
serde_json = "1"
stderrlog = "0.4"
