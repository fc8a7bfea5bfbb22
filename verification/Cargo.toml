[package]
name = "cargo-binlist"
version = "1.3.0"
edition = "2021"
publish = false

[dependencies]
anyhow = "1"
clap = { version = "4", features = ["derive"] }
comfy-table = "7"
crates_io_api = { version = "0.11", default-features = false, features = ["rustls"] }
dialoguer = "0.11"
itertools = "*"
log = "0.4"
rayon = "1"
semver = "1"
simplelog = "0.12"
which = "*"
