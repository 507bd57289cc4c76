[package]
name = "tdo"
version = "0.1.0"
edition = "2021"
publish = false

[dependencies]
clap = { version = "*", features = ["derive"] }
colored = "*"
dirs = "*"
fs2 = "*"
jiff = "*"
serde_json = "*"
slug = "*"
term_size = "*"
uuid = { version = "*", features = ["v4"] }
