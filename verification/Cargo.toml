[package]
name = "email_verify"
version = "0.1.0"
edition = "2021"
publish = false

[dependencies]
email_address = { version = "*", default-features = false }
tokio = { version = "1", features = ["net", "io-util", "time", "rt-multi-thread", "macros"] }
trust-dns-resolver = "*"
