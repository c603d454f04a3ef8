[package]
name = "marrow"
version = "0.1.0"
edition = "2021"
publish = false

[dependencies]
anyhow = "1"
console = "*"
dialoguer = "*"
dirs = "*"
indicatif = "*"
inquire = "*"
libc = "0.2"
notify = "*"
notify-debouncer-mini = "*"
open = "*"
reqwest = { version = "0.12", default-features = false, features = ["json"] }
rmcp = { version = "*", features = ["server", "transport-io"] }
rusqlite = { version = "*", features = ["bundled"] }
serde = { version = "1", features = ["derive"] }
serde_json = "1"
streaming-iterator = "0.1"
tiktoken-rs = "*"
tokio = { version = "1", features = ["full"] }
tree-sitter = "*"
tree-sitter-cpp = "*"
tree-sitter-python = "*"
tree-sitter-ruby = "*"
tree-sitter-rust = "*"
tree-sitter-typescript = "*"

[dev-dependencies]
tempfile = "3"
