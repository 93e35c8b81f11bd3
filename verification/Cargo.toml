[package]
name = "d20_server"
version = "0.1.0"
edition = "2021"
publish = false

[dependencies]
rand = "0.6"
futures-preview = "0.3.0-alpha.1"
romio = "0.3.0-alpha.1"
file-lock = "1"
