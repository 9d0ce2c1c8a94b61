[package]
name = "changelog"
version = "0.1.0"
edition = "2021"
publish = false

[dependencies]
semver = "1"
time = "0.3"
pulldown-cmark = "0.9"
cargo_metadata = "*"
