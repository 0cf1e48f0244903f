[package]
name = "asdl"
version = "0.1.0"
edition = "2021"
publish = false

[dependencies]
nom = { version = "=5.0.1", default-features = false, features = ["std"] }
rustc-hash = "1"
clap = "2"
tera = "0.11"
heck = "0.3"
failure = "0.1"
serde = { version = "1", features = ["derive"] }
