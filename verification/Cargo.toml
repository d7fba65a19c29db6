[package]
name = "cargo-pkgman"
version = "0.4.0"
edition = "2021"
publish = false

[dependencies]
semver = "1"
serde_json = "1"
toml = "0.9"
ureq = "3"
