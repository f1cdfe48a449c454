[package]
name = "rtun"
version = "0.1.0"
edition = "2021"
publish = false

[dependencies]
anyhow = "1"
byteorder = "=1.5.0"
bytes = "=1.12.1"
env_logger = "*"
etherparse = "=0.16.0"
futures = "0.3"
hickory-resolver = "=0.25.2"
if-watch = { version = "3", features = ["tokio"] }
ipnet = "=2.12.2"
iprange = "=0.6.7"
lazy_static = "1"
libc = "0.2"
log = "0.4"
oneshot = "0.1"
pin-project-lite = "0.2"
rand = "0.8"
ring = "=0.17.14"
smoltcp = { version = "=0.12.0", features = ["socket-tcp-cubic"] }
socket2 = { version = "0.5", features = ["all"] }
spin = "0.9"
tokio = { version = "1", features = ["full"] }
tokio-util = { version = "0.7", features = ["full"] }
trust-dns-proto = "=0.23.2"
tun = { version = "0.7", features = ["async"] }
