[package]
name = "hotpath"
version = "0.1.0"
edition = "2021"
publish = false

[dependencies]
clap = { version = "4", features = ["derive"] }
git2 = { version = "0.20", default-features = false }
ignore = "0.4"
rayon = "1"
rusqlite = { version = "*", features = ["bundled"] }
serde = { version = "1", features = ["derive"] }
serde_json = "1"
tree-sitter = "*"
tree-sitter-go = "*"
tree-sitter-rust = "*"
tree-sitter-typescript = "*"
