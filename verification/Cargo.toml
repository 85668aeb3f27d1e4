[package]
name = "klang"
version = "0.1.0"
edition = "2021"
publish = false

[dependencies]
pest = "*"
pest_derive = "*"
prost = { version = "*", default-features = false, features = ["std"] }
