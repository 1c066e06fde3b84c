[package]
name = "pgp"
version = "0.1.0"
edition = "2021"
publish = false

[dependencies]
chrono = { version = "0.4", default-features = false, features = ["now"] }
hex = "0.4"
md-5 = "0.10"
num-bigint = "0.4"
ripemd = "0.1"
sha1 = "0.10"
sha2 = "0.10"
