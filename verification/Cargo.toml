[package]
name = "ieee802154_frame"
version = "0.1.0"
edition = "2021"
publish = false

[dependencies]
aead = "0.4"
byte = "0.2"
