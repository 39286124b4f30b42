[package]
name = "git_memo"
version = "0.1.0"
edition = "2021"
publish = false

[dependencies]
git2 = { version = "*", default-features = false }
clap = { version = "*", features = ["derive"] }
serde_json = "*"

[dev-dependencies]
tempfile = "*"
