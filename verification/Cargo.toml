[package]
name = "rauthy_common"
version = "0.1.0"
edition = "2021"
publish = false

[dependencies]
actix-web = { version = "4", default-features = false }
base64 = "0.22"
cidr = "0.2"
gethostname = "0.4"
rand = "0.8"
serde = "1"
serde_json = "1"
tracing = "0.1"
