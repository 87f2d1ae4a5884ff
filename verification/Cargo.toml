[package]
name = "board_broker"
version = "0.1.0"
edition = "2021"
publish = false

[dependencies]
bimap = { version = "=0.6.3", default-features = false, features = ["std"] }
actix = "=0.13.5"
actix-cors = "*"
actix-http = "=3.19.0"
actix-web = "=4.18.1"
actix-web-actors = "=4.3.1"
actix-session = { version = "=0.11.0", features = ["cookie-session"] }
actix-web-httpauth = "=0.8.3"
bytes = "=1.12.1"
diesel = { version = "=2.3.14", features = ["postgres", "r2d2"] }
dotenv = "=0.15.0"
env_logger = "=0.11.11"
futures = "=0.3.34"
lazy_static = "=1.5.1"
log = "=0.4.34"
redis = "=1.8.0"
ring = "*"
rusoto_core = { version = "=0.48.0", default-features = false, features = ["rustls"] }
rusoto_s3 = { version = "=0.48.0", default-features = false, features = ["rustls"] }
serde = { version = "=1.0.229", features = ["derive"] }
serde_json = "=1.0.154"
uuid = { version = "=1.29.0", features = ["v4"] }
