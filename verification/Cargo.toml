[package]
name = "vitest-linter"
version = "0.1.0"
edition = "2021"
publish = false

[dependencies]
globset = "*"
tree-sitter = "*"
tree-sitter-typescript = "*"
serde = { version = "1", features = ["derive"] }
serde_json = "1"
toml = "*"
clap = { version = "4", features = ["derive"] }
colored = "*"
rayon = "1"
walkdir = "2"
anyhow = "1"
