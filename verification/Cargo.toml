[package]
name = "muppet"
version = "0.1.0"
edition = "2021"
publish = false

[dependencies]
argon2 = "0.5"
getrandom = "0.3"
zeroize = "1"
sqlx = { version = "0.8", default-features = false, features = ["sqlite", "runtime-tokio"] }
tokio = { version = "1", default-features = false, features = ["rt"] }
