[package]
name = "cyw43_spi"
version = "0.1.0"
edition = "2021"
publish = false

[dependencies]
aligned = "0.4"
embassy-futures = "0.1"
embassy-time = { version = "*", features = ["std"] }
embedded-hal = "1.0"
