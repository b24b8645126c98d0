[package]
name = "class_checkin"
version = "0.1.0"
edition = "2021"
publish = false

[dependencies]
chrono = { version = "=0.4.45", default-features = false, features = ["std", "clock"] }
urlencoding = "=2.1.3"
actix-web = { version = "=4.18.1", default-features = false, features = ["macros"] }
actix-files = "0.6"
tokio = { version = "=1.54.1", features = ["rt-multi-thread", "macros", "time", "sync"] }
rusqlite = { version = "=0.41.0", features = ["bundled"] }
serde = { version = "=1.0.229", features = ["derive"] }
serde_json = "=1.0.154"
