[package]
name = "airdrop"
version = "0.1.0"
edition = "2021"
publish = false

[dependencies]
data-encoding = "=2.11.1"
ed25519-dalek = { version = "=2.2.0", features = ["rand_core"] }
sha2 = "=0.10.9"
hkdf = "=0.12.4"
hmac = "=0.12.1"
chacha20poly1305 = "=0.10.1"
uuid = { version = "=1.29.0", features = ["v4"] }
url = "=2.5.8"
rand_core = { version = "=0.6.4", features = ["getrandom"] }
serde = { version = "=1.0.229", features = ["derive"] }
serde_json = "=1.0.154"
gethostname = "=0.5.0"
keyring = "=3.6.3"
image = { version = "0.25", default-features = false, features = ["png"] }
time = { version = "0.3", features = ["formatting"] }
