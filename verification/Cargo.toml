[package]
name = "commit_email"
version = "0.1.0"
edition = "2021"
publish = false

[dependencies]
anyhow = "*"
cursive = "*"
dirs = "*"
git2 = "*"
serde = { version = "*", features = ["derive"] }
toml = "*"
url = "*"
