[package]
name = "bupl"
version = "0.1.0"
edition = "2021"
publish = false

[dependencies]
dirs = "5"
image = { version = "0.25", default-features = false, features = ["jpeg", "png", "webp"] }
lazy_static = "1"
lofty = "0.21"
rand = "0.8"
reqwest = "0.12"
rodio = "0.19"
serde = { version = "1", features = ["derive"] }
tokio = { version = "1", features = ["fs", "io-util", "sync"] }
walkdir = "2"
youtube_dl = "0.10"
