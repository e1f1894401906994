[package]
name = "modeling"
version = "0.6.2"
edition = "2021"
publish = false

[dependencies]
regex = "1"
grep-regex = "0.1"
grep-searcher = "0.1"
tokenizers = { version = "*", default-features = false, features = ["unstable_wasm"] }
ignore = "0.4"
structopt = "0.3"
serde = { version = "1", features = ["derive"] }
serde_json = "1"
