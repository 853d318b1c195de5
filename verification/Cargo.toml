[package]
name = "tls_interceptor_proxy"
version = "0.1.0"
edition = "2021"
publish = false

[dependencies]
argh = "0.1"
chrono = "0.4"
cookie = "0.18"
futures = "0.3"
futures-util = "0.3"
har = "*"
hyper = { version = "0.14", features = ["full"] }
log = "0.4"
native-tls = "0.2"
openssl = "0.10"
serde_json = "1"
thiserror = "1"
time = { version = "0.3", features = ["formatting", "parsing"] }
tokio = { version = "1", features = ["full"] }
tokio-native-tls = "0.3"
tower = "0.4"
uuid = { version = "1", features = ["v4"] }
