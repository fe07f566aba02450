[package]
name = "binstaller"
version = "0.1.0"
edition = "2021"
publish = false

[dependencies]
anyhow = "1"
clap = { version = "4", features = ["derive"] }
directories = "*"
miniserde = "0.1"
reqwest = { version = "0.12", default-features = false, features = ["rustls-tls"] }
tempdir = "0.3"
tokio = { version = "1", features = ["macros", "rt-multi-thread"] }
zip-extract = "*"
