[package]
name = "flowy"
version = "0.1.0"
edition = "2021"
publish = false

[dependencies]
chrono = "0.4"
enquote = "1"
clap = "4"
directories-next = "2"
dirs-next = "2"
flate2 = "1"
tar = "0.4"
ureq = { version = "2", default-features = false }
toml = "0.8"
serde = { version = "1", features = ["derive"] }
winapi = { version = "0.3", features = ["winuser"] }
