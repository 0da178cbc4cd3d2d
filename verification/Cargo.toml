[package]
name = "codex-akram"
version = "0.1.0"
edition = "2021"
publish = false

[dependencies]
semver = "1"
ratatui = { version = "0.29", default-features = false }
textwrap = "0.16"
anyhow = "1"

[dev-dependencies]
pretty_assertions = "1"
