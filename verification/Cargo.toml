[package]
name = "blog_core"
version = "0.1.0"
edition = "2021"
publish = false

[dependencies]
rand = "0.8"
uuid = { version = "*", features = ["v4"] }
diesel = { version = "*", default-features = false }
serde_json = "*"
redis = { version = "*", features = ["r2d2"] }
r2d2 = "*"
serde = { version = "*", features = ["derive"] }
actix-web = "*"
actix-multipart = "*"
futures = "*"
chrono = "*"
dotenv = "*"
sha256 = { version = "*", default-features = false }
