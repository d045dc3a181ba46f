[package]
name = "ncm_lyric"
version = "0.1.0"
edition = "2021"
publish = false

[dependencies]
amll-lyric = "=0.3.0"
anyhow = "=1.0.104"
base64 = "=0.22.1"
clap = { version = "=4.6.7", features = ["derive"] }
prodash = { version = "=31.0.1", features = ["render-tui", "render-tui-crossterm"] }
reqwest = { version = "=0.12.28", default-features = false, features = ["rustls-tls"] }
serde = { version = "=1.0.229", features = ["derive"] }
serde_json = "=1.0.154"
soft-aes = "=0.2.2"
symphonia = { version = "=0.5.5", features = ["mp3"] }
tokio = { version = "=1.54.1", features = ["full"] }
walkdir = "=2.5.0"
