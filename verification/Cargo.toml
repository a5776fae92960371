[package]
name = "santa_tools"
version = "0.1.0"
edition = "2021"
publish = false

[dependencies]
similar = "*"
html-escape = "*"
clap = { version = "*", features = ["derive"] }
serde = { version = "*", features = ["derive"] }
serde_json = "*"
chrono = "*"
rayon = "*"
atty = "*"
tempfile = "*"
users = "*"
wait-timeout = "*"
pulldown-cmark = "*"
regex = "*"
