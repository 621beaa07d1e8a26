[package]
name = "coin_monitor"
version = "0.1.0"
edition = "2021"
publish = false

[dependencies]
tokio = { version = "*", features = ["macros", "rt-multi-thread", "time"] }
notify-rust = "*"
chrono = "*"
directories = "*"
