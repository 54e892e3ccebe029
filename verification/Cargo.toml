[package]
name = "stechuhr"
version = "0.1.0"
edition = "2021"
publish = false

[dependencies]
chrono = "*"
csv = "*"
diesel = { version = "*", features = ["sqlite"] }
dotenv = "*"
env_logger = "*"
libsqlite3-sys = { version = "*", features = ["bundled"] }
log = "*"
opener = "*"
pbkdf2 = { version = "*", features = ["simple"] }
serde = "*"
serde_derive = "*"
serde-lexpr = "*"
