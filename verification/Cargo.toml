[package]
name = "fin"
version = "0.2.0"
edition = "2021"
publish = false

[dependencies]
ctrlc = "3"
flate2 = "1"
futures = "0.3"
reqwest = { version = "0.12", default-features = false, features = ["blocking", "rustls-tls", "stream"] }
serde = { version = "1", features = ["derive"] }
sha2 = "0.10"
tar = "0.4"
toml = "0.8"
zip = { version = "2", default-features = false, features = ["deflate"] }
