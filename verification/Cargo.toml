[package]
name = "lnshm"
version = "0.1.0"
edition = "2021"
publish = false

[dependencies]
rand = "0.8"
symlink = "0.1"
toml = "0.8"
serde = { version = "1", features = ["derive"] }
clap = { version = "4", features = ["derive"] }
clap_complete = "4"
dirs = "5"
