[package]
name = "gamlastan"
version = "0.1.0"
edition = "2021"
publish = false

[dependencies]
actix-web = { version = "4", default-features = false }
base64 = "0.22"
chrono = { version = "0.4", default-features = false, features = ["clock", "std"] }
rand = "0.9"
sha2 = "0.10"
thiserror = "2"
