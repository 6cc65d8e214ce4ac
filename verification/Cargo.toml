[package]
name = "super_simple_ssh"
version = "0.1.0"
edition = "2021"
publish = false

[dependencies]
aes-gcm = "0.10"
base64 = "0.22"
pbkdf2 = { version = "0.12", default-features = false, features = ["hmac"] }
sha2 = "0.10"
rand_core = { version = "0.9", features = ["os_rng"] }
chrono = "0.4"
anyhow = "1"
serde = { version = "1", features = ["derive"] }
serde_json = "1"
dirs = "6"
rpassword = "7"
ratatui = "0.29"
crossterm = "0.28"
ssh2 = "0.9"
vt100 = "0.15"
arboard = { version = "3", default-features = false }
