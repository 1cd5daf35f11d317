[package]
name = "lilygo-epd47"
version = "0.1.0"
edition = "2021"
publish = false

[dependencies]
esp-hal = { version = "=1.1.2", features = ["esp32s3", "unstable"] }
log = "0.4"
