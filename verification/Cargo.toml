[package]
name = "velo"
version = "0.1.0"
edition = "2021"
publish = false

[dependencies]
arboard = "*"
chrono = "*"
crossterm = "*"
dirs = "*"
flate2 = "*"
fuzzy-matcher = "*"
git2 = "*"
open = "*"
ratatui = "*"
serde = { version = "*", features = ["derive"] }
syntect = { version = "*", default-features = false, features = ["default-fancy"] }
tar = "*"
toml = "*"
trash = "*"
zip = "*"
