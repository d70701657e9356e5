[package]
name = "via"
version = "0.1.0"
edition = "2021"
publish = false

[dependencies]
aes-gcm = "=0.10.3"
anyhow = "=1.0.104"
axum = { version = "=0.8.9", default-features = false, features = ["ws", "json", "http1", "tokio", "query"] }
base64 = "=0.22.1"
clap = { version = "=4.6.7", default-features = false, features = ["std", "derive", "help", "usage", "error-context"] }
dirs = "=6.0.0"
futures-util = "=0.3.34"
getrandom = "=0.2.17"
hmac = "=0.12.1"
iroh = { version = "=1.4.1", default-features = false, features = ["tls-ring"] }
reqwest = { version = "=0.13.5", default-features = false, features = ["json", "query"] }
ring = "=0.17.14"
rustls = { version = "=0.23.46", default-features = false, features = ["ring", "std"] }
serde = { version = "=1.0.229", features = ["derive"] }
serde_json = "=1.0.154"
sha2 = "=0.10.9"
time = { version = "=0.3.55", features = ["formatting", "parsing", "local-offset"] }
tokio = { version = "=1.54.1", features = ["rt-multi-thread", "macros", "net", "io-util", "sync", "time"] }
tokio-tungstenite = { version = "=0.29.0", default-features = false, features = ["connect", "rustls-tls-native-roots"] }
url = "=2.5.8"
uuid = { version = "=1.29.0", features = ["v4"] }
