[package]
name = "codex_workflow"
version = "0.1.0"
edition = "2021"
publish = false

[dependencies]
anyhow = "1"
chrono = "0.4"
clap = { version = "4", features = ["derive"] }
serde = { version = "1", features = ["derive"] }
serde_yaml = "0.9"
textwrap = "0.16"
tokio = { version = "1", features = ["macros", "process", "rt-multi-thread"] }
toml = "0.8"
