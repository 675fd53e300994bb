[package]
name = "notedoc"
version = "0.1.0"
edition = "2021"
publish = false

[dependencies]
pulldown-cmark = "*"
syntect = "*"
toml = "*"
chrono = "*"
dirs = "*"
env_logger = "*"
log = "*"
mime_guess = "*"
serde = { version = "*", features = ["derive"] }
signal-hook = "*"
tiny_http = "*"
