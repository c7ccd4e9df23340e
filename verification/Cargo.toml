[package]
name = "seraph"
version = "0.1.0"
edition = "2021"
publish = false

[dependencies]
anchor-lang = "=0.30.1"
anchor-spl = { version = "=0.30.1", features = ["stake"] }
static_assertions = "=1.1.0"
