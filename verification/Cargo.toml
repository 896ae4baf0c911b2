[package]
name = "crunchy_cli_core"
version = "0.1.0"
edition = "2021"
publish = false

[dependencies]
anyhow = "*"
async-trait = "*"
clap = { version = "*", features = ["derive"] }
crunchyroll-rs = "*"
log = "*"
