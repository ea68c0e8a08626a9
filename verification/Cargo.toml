[package]
name = "hemolymph"
version = "0.1.0"
edition = "2021"
publish = false

[dependencies]
regex = "1"
getrandom = "0.3"
rust-fuzzy-search = "*"
serde = { version = "1", features = ["derive"] }
serde_json = "1"
