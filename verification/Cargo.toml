[package]
name = "mishell"
version = "0.1.0"
edition = "2021"
publish = false

[dependencies]
regex = "1"
indenter = "0.3"
nix = { version = "0.29", features = ["signal", "process", "term"] }
tokio = { version = "1", features = ["rt-multi-thread", "macros", "sync"] }
reedline = "*"
nu-ansi-term = "*"
miette = "*"
thiserror = "*"
serde = "1"
tracing = "0.1"
lazy_static = "1"
os_pipe = "1"
