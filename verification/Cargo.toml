[package]
name = "git_id"
version = "1.0.0"
edition = "2021"
publish = false

[dependencies]
clap = { version = "*", features = ["derive"] }
clap_complete = "*"
dialoguer = "*"
dirs = "*"
serde = { version = "*", features = ["derive"] }
toml = "*"
