[package]
name = "wim_core"
version = "0.1.0"
edition = "2021"
publish = false

[dependencies]
image = "=0.25.10"
image_hasher = "=3.1.1"
actix-web = "=4.15.0"
actix-multipart = "=0.8.5"
actix-ws = "=0.4.0"
actix-cors = "=0.7.2"
tokio = { version = "=1.53.2", features = ["sync", "macros", "rt", "time"] }
reqwest = { version = "=0.13.5", default-features = false, features = ["json", "form", "multipart"] }
serde = { version = "=1.0.229", features = ["derive"] }
serde_json = "=1.0.151"
uuid = { version = "=1.27.0", features = ["v4", "serde"] }
futures-util = "=0.3.34"
webp = "=0.3.1"
log = "=0.4.34"
env_logger = "=0.11.11"
