[package]
name = "sshwarden"
version = "0.1.0"
edition = "2021"
publish = false

[dependencies]
aes = "=0.8.4"
cbc = { version = "=0.1.2", features = ["alloc", "block-padding"] }
hmac = "=0.12.1"
sha2 = "=0.10.9"
pbkdf2 = "=0.12.2"
hkdf = "=0.12.4"
argon2 = "=0.5.3"
base64 = "=0.22.1"
rand = "=0.8.8"
rmpv = "=1.3.1"
ssh-key = "=0.6.7"
zeroize = "=1.9.1"
serde = { version = "=1.0.229", features = ["derive"] }
serde_json = "=1.0.154"
toml = "=0.8.23"
anyhow = "=1.0.104"
clap = { version = "=4.6.7", features = ["derive"] }
tokio = { version = "=1.54.1", features = ["rt-multi-thread", "macros", "net", "io-util", "sync", "time", "signal"] }
reqwest = { version = "=0.12.28", default-features = false, features = ["json", "rustls-tls"] }
uuid = { version = "=1.29.0", features = ["v4"] }
sysinfo = "=0.33.1"
rpassword = "=7.5.4"
tracing = "=0.1.44"
tracing-subscriber = "=0.3.23"
futures-util = "=0.3.34"
tokio-tungstenite = { version = "0.24", default-features = false, features = ["connect", "rustls-tls-webpki-roots"] }
