[package]
name = "abxml"
version = "0.8.2"
edition = "2021"
publish = false

[dependencies]
byteorder = "1"
encoding = "0.2"
quick-xml = "0.22"
zip = { version = "0.5", default-features = false, features = ["deflate"] }
