[package]
name = "mockiapi"
version = "0.1.0"
edition = "2021"
publish = false

[dependencies]
base64 = "=0.23.1"
bytes = "=1.12.1"
chrono = "=0.4.45"
env_logger = "=0.11.11"
futures = "=0.3.34"
graphql-parser = "=0.4.1"
log = "=0.4.34"
serde = "=1.0.229"
serde_json = "=1.0.151"
tokio = { version = "=1.53.2", features = ["full"] }
uuid = { version = "=1.27.0", features = ["v4"] }
warp = { version = "=0.4.3", features = ["multipart", "server"] }
