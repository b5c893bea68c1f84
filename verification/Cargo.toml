[package]
name = "privaxy"
version = "0.1.0"
edition = "2021"
publish = false

[dependencies]
adblock = "=0.8.12"
bytes = "=1.12.1"
chrono = "=0.4.45"
crossbeam-channel = "=0.5.17"
http = "=1.5.0"
http-body-util = "=0.1.5"
hyper = { version = "=1.11.1", features = ["full"] }
hyper-util = { version = "=0.1.21", features = ["full"] }
log = "0.4"
lol_html = "=3.0.1"
rcgen = { version = "=0.13.2", features = ["x509-parser"] }
reqwest = { version = "=0.12.28", default-features = false, features = ["rustls-tls", "gzip", "brotli", "deflate"] }
# rmp-serde 0.15, which adblock 0.8 depends on, does not compile against rmp
# 0.8.12 or later; this pin holds rmp at the last version it builds with.
rmp = "=0.8.11"
rustls = { version = "=0.23.45", features = ["ring"] }
rustls-pki-types = "=1.15.1"
tokio = { version = "=1.53.2", features = ["full"] }
tokio-rustls = "=0.26.6"
