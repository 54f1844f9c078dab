[package]
name = "pass_store"
version = "0.1.0"
edition = "2021"
publish = false

[dependencies]
aho-corasick = "1"
anyhow = "1"
arboard = { version = "3", default-features = false }
clap = { version = "4", features = ["derive"] }
ctrlc = "3"
gpgme = "0.11"
rand = "0.8"
rpassword = "7"
tempfile = "3"
thiserror = "1"
walkdir = "2"
