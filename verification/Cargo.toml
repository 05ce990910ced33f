[package]
name = "url_shortener"
version = "0.1.0"
edition = "2021"
publish = false

[dependencies]
validator = "*"
serde = { version = "1", features = ["derive"] }
serde_json = "1"
actix-web = { version = "4", default-features = false }
sqlx = { version = "*", default-features = false, features = ["postgres", "runtime-tokio"] }
