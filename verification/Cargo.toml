[package]
name = "dep_miner"
version = "0.1.0"
edition = "2021"
publish = false

[dependencies]
anyhow = "*"
flate2 = "*"
indicatif = "*"
rayon = "*"
reqwest = { version = "*", default-features = false, features = ["blocking", "rustls-tls"] }
serde = { version = "*", features = ["derive"] }
serde_json = "*"
tar = "*"
toml = "*"
walkdir = "*"
