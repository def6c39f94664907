[package]
name = "dotfield"
version = "0.1.0"
edition = "2021"
publish = false

[dependencies]
rand = "0.5"
ezing = "*"
ggez = "0.5"
warmy = "0.7"
serde = "1"
serde_derive = "1"
serde_json = "1"
