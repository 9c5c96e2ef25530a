[package]
name = "tache"
version = "0.1.0"
edition = "2021"
publish = false

[dependencies]
time = "0.1"
async-std = "1"
futures = "0.3"
clap = "2"
serde = { version = "1", features = ["derive"] }
json5 = "0.4"
