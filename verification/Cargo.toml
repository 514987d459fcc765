[package]
name = "dither_bot"
version = "0.1.0"
edition = "2021"
publish = false

[dependencies]
dotenv = "0.15"
ed25519 = "2"
ed25519-dalek = "2"
hex = "0.4"
image = "0.24"
reqwest = { version = "0.11", features = ["multipart"] }
serde = { version = "1", features = ["derive"] }
serde_json = "1"
tokio = { version = "1", features = ["full"] }
warp = "0.3"
