[package]
name = "ccm_reproduction"
version = "2.5.0"
edition = "2021"
publish = false

[dependencies]
anyhow = "1.0.104"
rayon = "1.12.0"
rug = "1.30.0"
serde = { version = "1.0.229", features = ["derive"] }
serde_json = "1.0.154"
