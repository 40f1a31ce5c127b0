[package]
name = "mudpuppy"
version = "0.1.0"
edition = "2021"
publish = false

[dependencies]
serde = { version = "1", features = ["derive"] }
serde_json = "1"
toml = "0.8"
regex = "1"
unicode-width = "0.2"
strip-ansi-escapes = "0.2"
tokio-rustls = { version = "0.26", default-features = false }
directories = "6"
