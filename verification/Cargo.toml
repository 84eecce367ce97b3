[package]
name = "ml_interface"
version = "0.1.0"
edition = "2021"
publish = false

[dependencies]
ariadne = "0.5"
chumsky = "0.10"
pretty = "0.12"
serde = { version = "1", features = ["derive"] }
serde_json = { version = "1", features = ["preserve_order"] }
