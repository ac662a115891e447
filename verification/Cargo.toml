[package]
name = "git_hash_chooser"
version = "0.1.0"
edition = "2021"
publish = false

[dependencies]
sha1 = "0.10"
rayon = "1"
kdam = "*"
clap = { version = "4", features = ["derive"] }
