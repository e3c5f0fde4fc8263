[package]
name = "book_lending"
version = "0.1.0"
edition = "2021"
publish = false

[dependencies]
actix-web = "4"
bson = "2"
futures = "0.3"
mongodb = "3"
serde = { version = "1", features = ["derive"] }
tracing = "0.1"
validator = { version = "*", features = ["derive"] }
