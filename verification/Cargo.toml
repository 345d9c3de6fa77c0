[package]
name = "epub"
version = "0.1.0"
edition = "2021"
publish = false

[dependencies]
quick-xml = "=0.31.0"
zip = { version = "=8.6.0", default-features = false, features = ["deflate"] }
