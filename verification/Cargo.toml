[package]
name = "obsidian_copy"
version = "0.1.0"
edition = "2021"
publish = false

[dependencies]
pulldown-cmark = "*"
serde_yaml = "*"
unicode-normalization = "*"
ignore = "*"
clap = { version = "*", features = ["derive"] }
