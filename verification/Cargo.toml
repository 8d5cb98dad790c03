[package]
name = "lazy_git_ext"
version = "0.1.0"
edition = "2021"
publish = false

[dependencies]
git2 = { version = "=0.21.0", features = ["cred"] }
