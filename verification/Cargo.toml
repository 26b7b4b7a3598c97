[package]
name = "helix_ls"
version = "0.1.0"
edition = "2021"
publish = false

[dependencies]
dashmap = "=6.2.1"
tokio = { version = "=1.53.2", features = ["full"] }
tower-lsp = "=0.20.0"
