[package]
name = "simplide"
version = "0.1.0"
edition = "2021"
publish = false

[dependencies]
crossterm = "=0.28.1"
dirs = "=7.0.0"
image = { version = "0.25", default-features = false, features = ["png", "jpeg", "gif", "webp"] }
ratatui = "=0.29.0"
ratatui-image = "=4.2.0"
ropey = { version = "=1.6.1", default-features = false }
serde = { version = "1", features = ["derive"] }
toml = "*"
tree-sitter-highlight = "=0.27.1"
tree-sitter-go = "=0.25.0"
tree-sitter-javascript = "=0.25.0"
tree-sitter-json = "=0.24.8"
tree-sitter-md = "=0.5.3"
tree-sitter-php = "=0.25.1"
tree-sitter-python = "=0.25.0"
tree-sitter-rust = "=0.24.2"
tree-sitter-toml-ng = "=0.7.0"
tree-sitter-typescript = "=0.23.2"
tree-sitter-yaml = "=0.7.2"
unicode-width = "0.2"
