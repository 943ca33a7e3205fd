[package]
name = "reservation"
version = "0.1.0"
edition = "2021"
publish = false

[dependencies]
async-trait = "0.1"
chrono = { version = "0.4", default-features = false, features = ["std"] }
prost-types = "*"
sqlx = { version = "*", default-features = false, features = ["postgres", "chrono", "uuid", "runtime-tokio"] }
