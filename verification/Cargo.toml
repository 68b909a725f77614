[package]
name = "shipweight"
version = "0.1.0"
edition = "2021"
publish = false

[dependencies]
axum = "*"
axum-prometheus = "*"
chrono = { version = "*", features = ["serde"] }
dashmap = "*"
moka = { version = "*", features = ["future"] }
serde = { version = "*", features = ["derive"] }
serde_json = "*"
sqlx = { version = "*", default-features = false, features = ["runtime-tokio", "postgres", "chrono"] }
tokio = { version = "*", features = ["macros", "rt-multi-thread", "time", "net"] }
tower-http = { version = "*", features = ["cors"] }
tracing = "*"
tracing-subscriber = { version = "*", features = ["env-filter", "fmt"] }
