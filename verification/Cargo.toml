[package]
name = "libwifi"
version = "0.1.0"
edition = "2021"
publish = false

[dependencies]
bitflags = "1"
cookie-factory = "0.3"
nom = "7"
thiserror = "1"

[dev-dependencies]
hex = "0.4"
pretty-hex = "*"
