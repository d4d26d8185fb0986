[package]
name = "mercado"
version = "0.1.0"
edition = "2021"
publish = false

[dependencies]
axum = "*"
bcrypt = "*"
serde = { version = "*", features = ["derive"] }
serde_json = "*"
sqlx = { version = "*", default-features = false, features = ["sqlite", "runtime-tokio", "macros"] }
tokio = { version = "*", features = ["macros", "rt-multi-thread", "net"] }
tower-http = { version = "*", features = ["cors", "fs"] }
uuid = { version = "*", features = ["v4"] }
