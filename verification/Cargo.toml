[package]
name = "screen_watch"
version = "0.1.0"
edition = "2021"
publish = false

[dependencies]
chrono = "0.4"
futures = "0.3"
log = "0.4"
screenshots = "0.8"
serde = { version = "1", features = ["derive"] }
tempfile = "3"
tokio = { version = "1", features = ["fs", "macros", "rt", "sync", "time"] }
