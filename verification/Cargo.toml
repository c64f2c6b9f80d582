[package]
name = "synapse"
version = "0.1.5"
edition = "2021"
publish = false

[dependencies]
anyhow = "*"
blake3 = "*"
chrono = "*"
clap = { version = "*", features = ["derive"] }
docker_credential = "*"
globset = "*"
ignore = "*"
indicatif = "*"
lbug = "*"
oci-client = "*"
quick-xml = "*"
rayon = "*"
serde = { version = "*", features = ["derive"] }
serde_json = "*"
thiserror = "*"
tokio = { version = "*", features = ["rt", "net", "time"] }
toml = "*"
tree-sitter = "*"
tree-sitter-bash = "*"
tree-sitter-c-sharp = "*"
tree-sitter-go = "*"
tree-sitter-javascript = "*"
tree-sitter-json = "*"
tree-sitter-md = "*"
tree-sitter-python = "*"
tree-sitter-rust = "*"
tree-sitter-svelte-ng = "*"
tree-sitter-typescript = "*"
tree-sitter-yaml = "*"
tracing-subscriber = { version = "*", features = ["env-filter"] }
