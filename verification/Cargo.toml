[package]
name = "lamp"
version = "0.1.0"
edition = "2021"
publish = false

[dependencies]
anyhow = "1"
crossterm = "0.29"
id3 = "1"
mpris-server = "0.9"
rand = "0.9"
ratatui = "0.30"
rodio = { version = "0.20", default-features = false, features = ["symphonia-mp3"] }
serde = { version = "1", features = ["derive"] }
serde_json = "1"
sha2 = "0.10"
tokio = { version = "1", features = ["rt"] }
walkdir = "2"
zbus = "5"
