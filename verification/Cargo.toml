[package]
name = "hashcc"
version = "0.1.0"
edition = "2021"
publish = false

[dependencies]
blake3 = "*"
clap = { version = "*", features = ["derive"] }
csv = "*"
globset = "*"
hex = "*"
md-5 = "*"
memmap2 = "*"
rayon = "*"
serde = { version = "*", features = ["derive"] }
serde_json = "*"
sha1 = "*"
sha2 = "*"
walkdir = "*"
