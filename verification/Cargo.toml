[package]
name = "abnf_engine"
version = "0.1.0"
edition = "2021"
publish = false

[dependencies]
regex = "*"
convert_case = "*"
sha2 = "*"
hex = "*"
mime = "*"
serde_json = "*"
clap = { version = "*", features = ["derive"] }
