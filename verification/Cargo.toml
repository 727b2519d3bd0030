[package]
name = "netdiag"
version = "0.1.0"
edition = "2021"
publish = false

[dependencies]
anyhow = "=1.0.104"
bytes = "=1.12.1"
futures = "=0.3.34"
libc = "=0.2.191"
netlink-packet-core = "=0.9.0"
netlink-packet-route = "=0.33.0"
netlink-packet-sock-diag = { version = "=0.5.0", features = ["rich_nlas"] }
netlink-sys = { version = "=0.9.0", features = ["tokio_socket"] }
prost = "=0.14.4"
rtnetlink = "=0.23.0"
tokio = { version = "=1.54.1", features = ["full"] }
tracing = "=0.1.44"
tracing-subscriber = { version = "=0.3.23", features = ["env-filter"] }
