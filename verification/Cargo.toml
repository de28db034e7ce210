[package]
name = "song_quiz"
version = "0.1.0"
edition = "2021"
publish = false

[dependencies]
dotenv = "0.15"
edit-distance = "=2.2.2"
rand = "=0.8.8"
rspotify = { version = "0.12", default-features = false, features = ["client-reqwest", "reqwest-rustls-tls"] }
serenity = { version = "0.11", default-features = false, features = ["builder", "cache", "client", "collector", "framework", "gateway", "http", "model", "rustls_backend", "standard_framework", "utils", "voice"] }
songbird = "0.3"
sqlx = { version = "0.6", default-features = false, features = ["runtime-tokio-rustls", "sqlite", "chrono"] }
tokio = { version = "1", features = ["macros", "rt-multi-thread", "signal", "time"] }
tracing = "0.1"
tracing-subscriber = "0.3"

[dev-dependencies]
regex = "=1.13.1"
