[package]
name = "orinfar"
version = "0.1.0"
edition = "2021"
publish = false

[dependencies]
ropey = { version = "1.6", default-features = false }
anyhow = "1"
clap = { version = "4", features = ["derive"] }
crossterm = "*"
tree-sitter = "*"
tree-sitter-c = "*"
tree-sitter-highlight = "*"
