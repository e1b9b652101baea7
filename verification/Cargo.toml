[package]
name = "crates_index"
version = "0.1.0"
edition = "2021"
publish = false

[dependencies]
serde_json = "1"
git2 = "*"
glob = "0.3"
home = "*"
