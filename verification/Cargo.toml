[package]
name = "laptops"
version = "0.1.0"
edition = "2021"
publish = false

[dependencies]
http = "1"
postgres = "0.19"
serde = "1"
serde_derive = "1"
serde_json = "1"
