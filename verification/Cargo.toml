[package]
name = "eikodan"
version = "0.1.0"
edition = "2021"
publish = false

[dependencies]
axum = "0.8"
tokio = { version = "1", features = ["macros", "rt-multi-thread", "net", "fs", "sync"] }
minijinja = { version = "2", features = ["loader"] }
minijinja-autoreload = "2"
serde = { version = "1", features = ["derive"] }
serde_json = "1"
notify = "8"
tower-livereload = "0.9"
listenfd = "1"
sqlx = { version = "0.8", default-features = false, features = ["runtime-tokio", "postgres"] }
tokio-postgres = "0.7"
