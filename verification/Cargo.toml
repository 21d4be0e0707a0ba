[package]
name = "lyssg"
version = "0.1.0"
edition = "2021"
publish = false

[dependencies]
regex = "1"
markdown = "*"
actix-web = { version = "4", default-features = false }
derive_more = { version = "*", features = ["error", "display"] }
