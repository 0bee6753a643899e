[package]
name = "secret_squirrel"
version = "0.1.0"
edition = "2021"
publish = false

[dependencies]
anyhow = "1"
clap = { version = "4", features = ["derive"] }
console = "*"
ctrlc = "3"
grep-matcher = "*"
grep-regex = "*"
grep-searcher = "*"
ignore = "*"
parking_lot = "*"
ratatui = "*"
rayon = "1"
serde = { version = "1", features = ["derive"] }
serde_with = "3"
serde_yaml = "*"
thiserror = "*"
