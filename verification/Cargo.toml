[package]
name = "wit-bindgen-gen-guest-c"
version = "0.1.0"
edition = "2021"
publish = false

[dependencies]
anyhow = "1"
async-trait = "0.1"
clap = { version = "4", features = ["derive"] }
heck = { version = "0.4", features = ["unicode"] }
tracing = "0.1"
wit-bindgen-core = "0.3"
