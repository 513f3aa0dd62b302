[package]
name = "andrust"
version = "0.1.0"
edition = "2021"
publish = false

[dependencies]
crossterm = "*"
futures = "*"
tokio = { version = "*", features = ["rt", "rt-multi-thread", "macros", "fs"] }
zip = { version = "0.6.6", default-features = false, features = ["deflate"] }
