[package]
name = "pq_handshake"
version = "0.1.0"
edition = "2021"
publish = false

[dependencies]
aes = "=0.8.4"
ctr = "=0.9.2"
anyhow = "=1.0.104"
log = "=0.4.34"
pretty_env_logger = "=0.5.0"

[dev-dependencies]
bytes = "=1.12.1"
grammers-tl-types = "=0.10.0"
