[package]
name = "cosmic_store"
version = "0.1.0"
edition = "2021"
publish = false

[dependencies]
regex = "1"
serde = { version = "1", features = ["derive"] }
serde_json = "1"
bitcode = "0.6"
chrono = "0.4"
dirs = "5"
clap = { version = "4", features = ["derive"] }
