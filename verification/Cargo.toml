[package]
name = "stayhydated"
version = "0.1.0"
edition = "2021"
publish = false

[dependencies]
quick-xml = "*"
anyhow = "*"
cargo_metadata = "*"
walkdir = "*"
mdbook-driver = "*"

[dev-dependencies]
tempfile = "*"
