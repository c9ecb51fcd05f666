[package]
name = "bulk_query"
version = "0.1.0"
edition = "2021"

[dependencies]
sqlx = { version = "*", default-features = false, features = ["postgres", "runtime-tokio"] }
futures = "*"
