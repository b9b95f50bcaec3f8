[package]
name = "zed_languages"
version = "0.1.0"
edition = "2021"
publish = false

[dependencies]
anyhow = "=1.0.104"
async-compression = { version = "=0.3.15", features = ["gzip", "futures-bufread"] }
dirs = "=3.0.2"
futures = "=0.3.34"
lsp-types = "=0.91.1"
regex = "=1.13.1"
rust-embed = "=6.8.1"
serde = { version = "=1.0.229", features = ["derive"] }
smol = "=1.3.0"
surf = { version = "=2.3.2", default-features = false }
toml = "=0.5.11"
tree-sitter-c = "=0.20.8"
tree-sitter-markdown = "=0.7.1"
tree-sitter-rust = "=0.20.4"
