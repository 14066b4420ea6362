[package]
name = "memcache"
version = "0.19.0"
edition = "2021"
publish = false

[dependencies]
byteorder = "1"
libc = "0.2"
r2d2 = "0.8"
rand = "0.9"
rustls = { version = "0.23", default-features = false, features = ["ring", "std", "tls12"] }
rustls-native-certs = "0.8"
rustls-pki-types = { version = "1", features = ["std"] }
serde = { version = "1", features = ["derive"] }
serde_json = "1"
tokio = { version = "1", features = ["net", "io-util", "time", "sync", "rt", "rt-multi-thread"] }
url = "2"
