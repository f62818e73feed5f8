[package]
name = "kiro-generator"
version = "0.1.0"
edition = "2021"
publish = false

[dependencies]
dirs = "=7.0.0"
facet = "=0.46.5"
facet-json = "=0.46.1"
facet-toml = "=0.46.1"
facet-value = "=0.46.0"
clap = { version = "=4.6.7", features = ["derive", "env"] }
