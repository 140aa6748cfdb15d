[package]
name = "compresso"
version = "0.1.0"
edition = "2021"
publish = false

[dependencies]
nanoid = "0.4"
crossbeam-channel = "0.5"
shared_child = "1"
serde_json = "1"
walkdir = "2"
dialoguer = "0.11"
indicatif = "0.17"
