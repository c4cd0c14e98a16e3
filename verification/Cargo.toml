[package]
name = "minecraft_2d"
version = "0.1.0"
edition = "2021"
publish = false

[dependencies]
crossterm = "*"
dirs = "*"
noise = "*"
serde = { version = "*", features = ["derive"] }
toml = "*"
