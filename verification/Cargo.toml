[package]
name = "tombi"
version = "0.1.0"
edition = "2021"
publish = false

[dependencies]
bytes = "*"
chrono = { version = "*", default-features = false }
clap = { version = "*", features = ["derive"] }
indexmap = "*"
itertools = "*"
nu-ansi-term = "*"
reqwest = { version = "*", default-features = false }
serde = { version = "*", features = ["derive"] }
thiserror = "*"
tower-lsp = "*"
tracing = "*"
tracing-subscriber = "*"
