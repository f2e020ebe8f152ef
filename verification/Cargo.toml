[package]
name = "gitgeoff"
version = "0.1.0"
edition = "2021"
publish = false

[dependencies]
anyhow = "1"
chrono = { version = "0.4", features = ["serde"] }
clap = { version = "4", features = ["cargo"] }
directories = "*"
git2 = "*"
globset = "0.4"
grep-matcher = "0.1"
grep-regex = "0.1"
grep-searcher = "0.1"
hyperx = "1"
log = "0.4"
pretty_env_logger = "0.5"
rayon = "1"
regex = "1"
reqwest = { version = "0.11", features = ["blocking", "json"] }
serde = { version = "1", features = ["derive"] }
serde_derive = "1"
serde_json = "1"
tempfile-fast = "0.3"
url = "2"
