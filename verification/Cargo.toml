[package]
name = "multipart_echo"
version = "0.1.0"
edition = "2021"
publish = false

[dependencies]
actix-multipart = "0.3"
actix-web = { version = "3", default-features = false }
dotenv = "0.15"
env_logger = "0.8"
futures = "0.3"
log = "0.4"
