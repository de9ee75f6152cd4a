[package]
name = "fuzzyserve"
version = "0.1.0"
edition = "2021"
publish = false

[dependencies]
strsim = "0.11"
urlencoding = "2"
walkdir = "2"
clap = { version = "4", features = ["derive"] }
actix-web = { version = "4", default-features = false, features = ["macros"] }
actix-files = "0.6"
