[package]
name = "rxedit"
version = "0.1.0"
edition = "2021"
publish = false

[dependencies]
regex = "1"
sha2 = "0.10"
unescaper = "*"
tree-sitter = "*"
tree-sitter-python = "*"
tree-sitter-rust = "*"
clap = { version = "4", features = ["derive"] }
env_logger = "*"
log = "0.4"
inquire = "*"
serde = { version = "1", features = ["derive"] }
serde_json = "1"
toml = "*"
minijinja = "*"
libloading = "*"
abi_stable = "*"
