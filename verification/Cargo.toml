[package]
name = "ruby_ls"
version = "0.1.0"
edition = "2021"
publish = false

[dependencies]
anyhow = "1"
crossbeam-channel = "0.5"
fuzzy-matcher = "0.3"
itertools = "0.10"
log = "0.4"
log4rs = "1"
lsp-server = "0.7"
lsp-types = "0.94"
rayon = "1"
serde = { version = "1", features = ["derive"] }
serde_json = "1"
tree-sitter = "0.20"
tree-sitter-ruby = "0.20"
walkdir = "2"
