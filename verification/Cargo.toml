[package]
name = "analog_library"
version = "0.1.0"
edition = "2021"
publish = false

[dependencies]
quick-xml = "0.38"
url = "2"
maud = "0.27"
mime = "0.3"
serde = { version = "1", features = ["derive"] }
serde_json = "1"
sled = "0.34"
reqwest = { version = "0.12", default-features = false, features = ["rustls-tls"] }
tokio = { version = "1", features = ["macros", "rt-multi-thread", "net"] }
axum = "0.8"
pico-args = "0.5"
thiserror = "2"
tracing = "0.1"
tracing-subscriber = "0.3"
futures = "0.3"
