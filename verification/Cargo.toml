[package]
name = "aligner_frontend"
version = "0.1.0"
edition = "2021"
publish = false

[dependencies]
anyhow = "1"
nix = { version = "*", default-features = false, features = ["user"] }
percent-encoding = "2"
serde = { version = "1", features = ["derive"] }
serde_json = "1"
structopt = "0.3"
webbrowser = "*"
