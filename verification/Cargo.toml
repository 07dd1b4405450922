[package]
name = "zero2prod"
version = "0.1.0"
edition = "2021"
publish = false

[dependencies]
actix-web = "4"
anyhow = "1"
argon2 = "0.5"
base64 = "0.22"
chrono = { version = "0.4", default-features = false, features = ["clock"] }
rand = "0.8"
reqwest = { version = "0.12", features = ["json"] }
secrecy = "0.8"
serde = { version = "1", features = ["derive"] }
sqlx = { version = "0.8", default-features = false, features = ["runtime-tokio", "postgres", "uuid", "chrono"] }
thiserror = "1"
tokio = { version = "1", features = ["macros", "rt-multi-thread"] }
uuid = { version = "1", features = ["v4"] }
validator = "0.18"
