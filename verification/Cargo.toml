[package]
name = "typers"
version = "0.1.0"
edition = "2021"
publish = false

[dependencies]
any_ascii = "*"
atty = "0.2"
clap = { version = "4", features = ["derive"] }
colored = "2"
console = "0.15"
home = "0.5"
iso639-1 = "*"
rand = "0.8"
reqwest = { version = "0.11", features = ["blocking"] }
serde = { version = "1", features = ["derive"] }
serde_json = "1"
toml = "0.8"
