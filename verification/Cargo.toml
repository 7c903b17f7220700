[package]
name = "nocturne"
version = "0.1.0"
edition = "2021"
publish = false

[dependencies]
anyhow = "*"
axum = "*"
base64 = "*"
blake3 = "*"
bloomfilter = "*"
chacha20poly1305 = "*"
ed25519-dalek = { version = "*", features = ["rand_core"] }
etcd-client = "*"
futures = "*"
governor = "*"
lru = "*"
parking_lot = "*"
rand = "0.8"
reqwest = { version = "*", default-features = false, features = ["json"] }
serde = { version = "*", features = ["derive"] }
serde_json = "*"
sha3 = "*"
subtle = "*"
thiserror = "*"
tokio = { version = "*", features = ["full"] }
