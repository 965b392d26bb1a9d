[package]
name = "grammar_gen"
version = "0.1.0"
edition = "2021"
publish = false

[dependencies]
syn = { version = "*", features = ["full"] }
syn-inline-mod = "*"

[dev-dependencies]
serde_json = "*"
