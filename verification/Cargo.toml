[package]
name = "jormungandr_voting"
version = "0.1.0"
edition = "2021"
publish = false

[dependencies]
cryptoxide = "*"
hex = "0.4"
itertools = "0.9"
poldercast = "0.13"
rand = "0.7"
rand_chacha = "0.2"
rand_core = "0.5"
reqwest = { version = "0.10", default-features = false, features = ["blocking"] }
serde = { version = "1", features = ["derive"] }
serde_json = "1"
structopt = "0.3"
typed-bytes = "1.0.0"
