[package]
name = "memegen"
version = "0.1.0"
edition = "2021"
publish = false

[dependencies]
async-openai = "=0.12.2"
censor = "=0.3.0"
image2 = { version = "=1.9.2", default-features = false, features = ["magick", "text"] }
rand = "=0.8.8"
reqwest = { version = "=0.11.27", features = ["multipart", "stream"] }
serde_json = "=1.0.154"
tokio = { version = "=1.54.1", features = ["full"] }
tokio-util = { version = "=0.7.20", features = ["codec"] }

[dev-dependencies]
regex = "=1.13.1"
