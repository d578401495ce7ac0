[package]
name = "libscoop"
version = "0.1.0"
edition = "2021"
publish = false

[dependencies]
once_cell = "1"
regex = "1"
clap = { version = "4", features = ["derive"] }
comfy-table = "7"
crossterm = "0.28"
indicatif = "0.17"
git2 = { version = "0.19", default-features = false }
zip = { version = "2", default-features = false, features = ["deflate"] }
serde = { version = "1", features = ["derive"] }
serde_json = "1"
rayon = "1"
