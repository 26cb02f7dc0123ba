[package]
name = "ecolog_lsp"
version = "0.1.0"
edition = "2021"
publish = false

[dependencies]
ropey = "1"
korni = "*"
glob = "0.3"
num_cpus = "1"
abundantis = "*"
serde = { version = "1", features = ["derive"] }
serde_json = "1"
toml = "*"
tower-lsp = "0.20"
tokio = { version = "1", features = ["full"] }
thiserror = "*"
tracing = "0.1"
compact_str = "*"
tree-sitter = "*"
tree-sitter-bash = "*"
tree-sitter-c = "*"
tree-sitter-c-sharp = "*"
tree-sitter-cpp = "*"
tree-sitter-elixir = "*"
tree-sitter-go = "*"
tree-sitter-java = "*"
tree-sitter-javascript = "*"
tree-sitter-kotlin-ng = "*"
tree-sitter-lua = "*"
tree-sitter-php = "*"
tree-sitter-python = "*"
tree-sitter-ruby = "*"
tree-sitter-rust = "*"
tree-sitter-typescript = "*"
tree-sitter-zig = "*"
