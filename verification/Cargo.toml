[package]
name = "d2typ"
version = "0.1.0"
edition = "2021"
publish = false

[dependencies]
csv = "*"
serde_json = "*"
serde_yaml = "*"
toml = "*"
tabled = "*"
calamine = "*"
clap = { version = "*", features = ["derive"] }
