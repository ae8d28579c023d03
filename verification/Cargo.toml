[package]
name = "heroicons_codegen"
version = "0.1.0"
edition = "2021"
publish = false

[dependencies]
anyhow = "1"
convert_case = "*"
indoc = "2"
regex = "1"
reqwest = { version = "*", features = ["blocking"] }
toml = "*"
zip = "*"
