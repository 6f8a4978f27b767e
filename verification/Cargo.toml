[package]
name = "ciel_workspace"
version = "0.1.0"
edition = "2021"
publish = false

[dependencies]
anyhow = "1"
console = "0.15"
dialoguer = { version = "0.11", features = ["fuzzy-select"] }
indicatif = "0.17"
lazy_static = "1"
libc = "0.2"
sha2 = "0.10"
tar = "0.4"
xz2 = "0.1"
