[package]
name = "indexer"
version = "0.1.0"
edition = "2021"
publish = false

[dependencies]
elasticsearch = "8.5.0-alpha.1"
indicatif = "0.17"
rayon = "1"
serde = { version = "1", features = ["derive"] }
tokio = { version = "1", features = ["macros", "rt-multi-thread", "time"] }
toml = "0.8"
