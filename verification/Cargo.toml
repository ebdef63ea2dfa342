[package]
name = "messenger_archive"
version = "0.1.0"
edition = "2021"
publish = false

[dependencies]
chrono = { version = "0.4", default-features = false, features = ["std"] }
html-escape = "0.2"
xml-rs = "0.8"
