[package]
name = "waveline"
version = "0.1.0"
edition = "2021"
publish = false

[dependencies]
ureq = { version = "2", features = ["json"] }
serde = { version = "1", features = ["derive"] }
serde_json = "1"
dirs = "5"
ratatui = "0.29"
crossterm = "0.28"
symphonia = { version = "0.5", features = ["mp3", "aac", "isomp4", "ogg", "vorbis"] }
mpris-server = "0.8"
futures-lite = "2"
async-io = "2"
