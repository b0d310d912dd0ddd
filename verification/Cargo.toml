[package]
name = "tdcore"
version = "0.1.0"
edition = "2021"
publish = false

[dependencies]
regex = "=1.13.1"
data-encoding = "=2.11.1"
rand = "=0.8.8"
serde = { version = "=1.0.229", features = ["derive"] }
serde_json = "=1.0.154"
argon2 = "=0.5.3"
chacha20poly1305 = "=0.10.1"
aes-gcm = "=0.10.3"
base64 = "=0.22.1"
zeroize = "=1.9.1"
rusqlite = { version = "=0.31.0", features = ["bundled"] }
directories = "=5.0.1"
time = "=0.3.55"
anyhow = "=1.0.104"
thiserror = "=1.0.69"
clap = { version = "=4.6.7", features = ["derive"] }
wait-timeout = "=0.2.1"
rpassword = "=7.5.4"
chrono = { version = "0.4", default-features = false, features = ["std", "now", "serde"] }
