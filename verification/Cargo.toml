[package]
name = "nordvpn"
version = "0.1.0"
edition = "2021"
publish = false

[dependencies]
byte-unit = "*"
chrono = "*"
semver = "*"
