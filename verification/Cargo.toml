[package]
name = "cask"
version = "0.1.0"
edition = "2021"
publish = false

[dependencies]
xxhash-rust = { version = "=0.8.19", features = ["xxh3"] }
rand = "=0.9.5"
sysinfo = "=0.39.6"
serde = { version = "=1.0.229", features = ["derive"] }
serde_json = "=1.0.154"
serde_yaml = "=0.9.34"
clap = { version = "=4.6.7", features = ["derive"] }
actix-web = { version = "=4.18.1", default-features = false, features = ["macros"] }
actix-files = "=0.6.10"
tokio = { version = "=1.54.1", features = ["sync", "rt", "macros"] }
walkdir = "=2.5.0"
zip = { version = "=9.2.2", default-features = false, features = ["deflate"] }
flate2 = "=1.1.10"
ctrlc = "=3.5.2"
directories = "=6.0.0"
mime = "=0.3.17"
