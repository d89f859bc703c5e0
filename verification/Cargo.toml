[package]
name = "playful"
version = "0.1.0"
edition = "2021"
publish = false

[dependencies]
color-eyre = "0.6"
crossterm = "0.28"
directories = "5"
image = { version = "0.25", default-features = false, features = ["png", "jpeg"] }
lofty = "0.22"
mpvipc = "1.3"
ratatui = "0.29"
serde = { version = "1", features = ["derive"] }
serde_json = "1"
viuer = "0.9"
walkdir = "2"
