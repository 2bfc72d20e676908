[package]
name = "oh_my_sftp"
version = "0.1.0"
edition = "2021"
publish = false

[dependencies]
anyhow = "1"
base64 = "0.22"
bytesize = "1"
chrono = "0.4"
crossterm = "0.28"
dirs = "5"
env_logger = "0.11"
glob = "0.3"
log = "0.4"
portable-pty = "0.8"
ratatui = "0.29"
serde = { version = "1", features = ["derive"] }
serde_json = "1"
ssh2 = "0.9"
uuid = { version = "1", features = ["v4"] }
whoami = "1"
