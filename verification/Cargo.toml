[package]
name = "process_code_snippets"
version = "0.1.0"
edition = "2021"
publish = false

[dependencies]
color-eyre = { version = "*", default-features = false }
git2 = { version = "*", default-features = false }
hex = "*"
itertools = "*"
nom = "7"
nom-regex = "0.2"
regex = "1"
