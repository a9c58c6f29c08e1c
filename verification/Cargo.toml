[package]
name = "net_helper"
version = "0.1.0"
edition = "2021"
publish = false

[dependencies]
crossterm = "0.28"
rustls = { version = "0.23", default-features = false, features = ["ring", "std", "tls12", "logging"] }
tungstenite = "0.24"
webpki-roots = "0.26"
