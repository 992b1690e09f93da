[package]
name = "syno_photo_frame"
version = "0.1.0"
edition = "2021"
publish = false

[dependencies]
anyhow = "1"
bytes = "1"
chrono = { version = "0.4", features = ["unstable-locales"] }
clap = { version = "4", features = ["derive"] }
image = { version = "0.25", default-features = false, features = ["jpeg", "png"] }
log = "0.4"
rand = "0.9"
reqwest = { version = "0.12", default-features = false, features = ["blocking", "cookies", "json", "rustls-tls"] }
rppal = "*"
sdl2 = { version = "0.37", features = ["ttf", "gfx"] }
serde = { version = "1", features = ["derive"] }
serde_json = "1"
simple_logger = "*"
syno_api = "*"
