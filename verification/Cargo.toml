[package]
name = "tufa"
version = "0.1.0"
edition = "2021"
publish = false

[dependencies]
aes-gcm = "=0.10.3"
argon2 = "=0.5.3"
base32 = "=0.5.1"
base64 = "=0.22.1"
clap = { version = "=4.6.7", features = ["derive"] }
crossterm = "=0.29.0"
dirs = "=6.0.0"
qrcode = "=0.14.1"
ratatui = "=0.30.2"
rpassword = "=7.5.4"
serde = { version = "=1.0.229", features = ["derive"] }
serde_json = "=1.0.154"
totp-rs = "=5.7.2"
urlencoding = "=2.1.3"
zeroize = { version = "=1.9.1", features = ["derive"] }

[dev-dependencies]
prost = "0.14"
tempfile = "=3.27.0"
