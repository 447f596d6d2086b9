[package]
name = "bollard"
version = "0.1.0"
edition = "2021"
publish = false

[dependencies]
base64 = "=0.22.1"
docker_credential = "=1.4.0"
glob = "=0.3.4"
regex = "=1.13.1"
num = "=0.4.3"
rand = "=0.9.5"
serde = { version = "=1.0.229", features = ["derive"] }
serde_json = "=1.0.154"
bytes = "=1.12.1"
tokio-util = { version = "=0.7.20", features = ["codec"] }
tokio = "=1.54.1"
futures-core = "=0.3.34"
url = "=2.5.8"
xattr = "1"
