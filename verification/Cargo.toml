[package]
name = "ssh_proxy"
version = "0.2.0"
edition = "2021"
publish = false

[dependencies]
anyhow = "1"
clap = { version = "4", features = ["derive"] }
dashmap = "=6.2.1"
etherparse = "=0.21.0"
futures = "0.3"
inquire = "=0.9.4"
netlink-packet-route = "0.30"
postcard = { version = "=1.1.3", features = ["use-std"] }
rtnetlink = "0.21"
russh = { version = "=0.65.0", default-features = false, features = ["ring", "rsa"] }
serde = { version = "1", features = ["derive"] }
tokio = { version = "1", features = ["full"] }
tracing = "0.1"
tracing-subscriber = { version = "0.3", features = ["env-filter"] }
tun = { version = "=0.8.14", features = ["async"] }
users = "0.11"
xdg = "3"
