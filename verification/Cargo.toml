[package]
name = "securitytxtcrawl"
version = "0.1.0"
edition = "2021"
publish = false

[dependencies]
rand = "0.8"
zip = "*"
reqwest = { version = "*", default-features = false }
tokio = { version = "*", features = ["rt-multi-thread", "macros", "fs", "io-util"] }
futures = "0.3"
indicatif = "*"
structopt = "0.3"
