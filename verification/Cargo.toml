[package]
name = "parabuild"
version = "0.1.0"
edition = "2021"
publish = false

[dependencies]
chrono = "*"
clap = { version = "*", features = ["derive"] }
crossbeam-channel = "*"
ctrlc = "*"
fs_extra = "*"
handlebars = "*"
humantime = "*"
ignore = "*"
indicatif = "*"
regex = "*"
serde_json = "*"
tempfile = "*"
uuid = { version = "*", features = ["v4"] }
