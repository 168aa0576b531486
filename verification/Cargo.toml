[package]
name = "icmp_encoding"
version = "0.1.0"
edition = "2021"
publish = false

[dependencies]
futures = "=0.3.34"
mio = "=0.6.23"
socket2 = "=0.3.19"
tokio = { version = "=0.2.25", features = ["io-driver"] }

[dev-dependencies]
internet-checksum = "=0.2.1"
