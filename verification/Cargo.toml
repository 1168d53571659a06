[package]
name = "promirc"
version = "0.1.0"
edition = "2021"
publish = false

[dependencies]
url = "=2.5.8"
rand = "=0.10.3"
prometheus = { version = "=0.14.0", default-features = false }
irc = { version = "=1.1.0", default-features = false, features = ["tls-rust"] }
rocket = "=0.5.2"
