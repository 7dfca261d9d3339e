[package]
name = "checklist"
version = "0.1.0"
edition = "2021"
publish = false

[dependencies]
pulldown-cmark = { version = "0.10", default-features = false }
toml = { version = "0.8", features = ["preserve_order"] }
clap = { version = "4", features = ["derive"] }
cursive = "0.21"
env_logger = "0.11"
log = "0.4"
time = { version = "0.3", features = ["formatting"] }
