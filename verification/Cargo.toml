[package]
name = "frame"
version = "0.1.0"
edition = "2021"
publish = false

[dependencies]
chrono = "0.4"
dotenv = "0.15"
env_logger = "0.11"
log = "0.4"
postgres = { version = "0.19", features = ["with-uuid-1"] }
serde = { version = "1", features = ["derive"] }
tiny_http = "0.12"
ureq = { version = "2", default-features = false, features = ["json"] }
uuid = { version = "1", features = ["serde"] }
