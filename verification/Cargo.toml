[package]
name = "cosmicdrop"
version = "0.1.0"
edition = "2021"
publish = false

[dependencies]
rand = "0.8"
anyhow = "1"
log = "0.4"
env_logger = { version = "0.11", default-features = false }
libc = "0.2"
tokio = { version = "1", features = ["rt-multi-thread", "net", "io-util", "time", "sync"] }
tokio-rustls = { version = "0.26", default-features = false, features = ["ring", "logging", "tls12"] }
rustls = { version = "0.23", default-features = false, features = ["ring", "std", "logging", "tls12"] }
rustls-pemfile = "2"
mdns-sd = "0.11"
plist = "1"
flate2 = "1"
tar = "0.4"
rcgen = "0.13"
if-addrs = "0.13"
hostname = "0.4"
image = { version = "0.25", default-features = false, features = ["jpeg"] }
rfd = "0.14"
