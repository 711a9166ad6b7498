[package]
name = "nyx_scanner"
version = "0.1.0"
edition = "2021"
publish = false

[dependencies]
petgraph = "*"
blake3 = "*"
tree-sitter = "*"
tree-sitter-rust = "*"
tree-sitter-c = "*"
tree-sitter-cpp = "*"
tree-sitter-go = "*"
tree-sitter-java = "*"
tree-sitter-javascript = "*"
tree-sitter-php = "*"
tree-sitter-python = "*"
tree-sitter-ruby = "*"
tree-sitter-typescript = "*"
rusqlite = "*"
r2d2 = "*"
r2d2_sqlite = "*"
serde = { version = "1", features = ["derive"] }
toml = "*"
clap = { version = "4", features = ["derive"] }
console = "*"
bytesize = "*"
chrono = "*"
directories = "*"
ignore = "*"
crossbeam-channel = "*"
num_cpus = "*"
rayon = "*"
dashmap = "*"
tracing = "*"
tracing-subscriber = { version = "*", features = ["env-filter", "time"] }
