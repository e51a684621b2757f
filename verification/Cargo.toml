[package]
name = "intentumdiff_python_parser"
version = "0.1.0"
edition = "2021"
publish = false

[dependencies]
tree-sitter = "0.25"
tree-sitter-python = "0.25"
serde = { version = "1", features = ["derive"] }
serde_json = "1"
