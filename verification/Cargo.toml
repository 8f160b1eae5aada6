[package]
name = "prism"
version = "0.1.0"
edition = "2021"
publish = false

[dependencies]
chrono = "=0.4.45"
sha2 = "=0.10.9"
uuid = { version = "=1.29.0", features = ["v4"] }
dirs = "=7.0.0"
tree-sitter = "=0.27.1"
tree-sitter-rust = "=0.24.2"
tree-sitter-python = "=0.25.0"
tree-sitter-javascript = "=0.25.0"
tree-sitter-typescript = "=0.23.2"
tree-sitter-go = "=0.25.0"
tree-sitter-c = "=0.24.2"
tree-sitter-cpp = "=0.23.4"
tree-sitter-ruby = "=0.23.1"
tree-sitter-elixir = "=0.3.5"
tree-sitter-erlang = "=0.21.0"
tree-sitter-bash = "=0.25.1"
tree-sitter-yaml = "=0.7.2"
tree-sitter-toml-ng = "=0.7.0"
tree-sitter-json = "=0.24.8"
tree-sitter-html = "=0.23.2"
tree-sitter-sequel = "=0.3.11"
tantivy = { version = "=0.27.0", default-features = false }
serde = { version = "=1.0.229", features = ["derive"] }
serde_json = "=1.0.154"
toml = "=1.1.8"
roaring = "*"
