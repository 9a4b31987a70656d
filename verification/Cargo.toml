[package]
name = "deaddrop"
version = "0.2.0"
edition = "2021"
publish = false

[dependencies]
blake3 = "=1.8.7"
sha2 = "=0.10.9"
ed25519-dalek = "=2.2.0"
x25519-dalek = { version = "=2.0.1", features = ["static_secrets"] }
chacha20poly1305 = "=0.10.1"
hkdf = "=0.12.4"
hmac = "=0.12.1"
rand = "=0.8.8"
reed-solomon-erasure = "=6.0.0"
zstd = "=0.13.4"
serde = { version = "=1.0.229", features = ["derive"] }
serde_json = "=1.0.154"
ciborium = "=0.2.2"
toml = "=0.8.23"
anyhow = "=1.0.104"
rusqlite = { version = "0.31", features = ["bundled"] }
