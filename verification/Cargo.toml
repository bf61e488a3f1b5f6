[package]
name = "sift"
version = "0.1.0"
edition = "2021"
publish = false

[dependencies]
base64 = "=0.23.1"
flate2 = "=1.1.10"
serde = { version = "=1.0.229", features = ["derive"] }
serde_json = "=1.0.154"
hmac = "=0.13.0"
sha2 = "=0.11.1"
percent-encoding = "=2.3.2"
quick-xml = "=0.42.0"
roxmltree = "=0.21.2"
url = "=2.5.8"
uuid = { version = "=1.29.0", features = ["v4"] }
time = { version = "=0.3.55", features = ["formatting", "parsing"] }
toml = "=1.1.8"
directories = "=6.0.0"
tempfile = "=3.27.0"
thiserror = "=2.0.21"
zeroize = "=1.9.1"
keyring = { version = "=3.6.3", features = ["apple-native", "windows-native", "async-secret-service", "crypto-rust", "async-io"] }
