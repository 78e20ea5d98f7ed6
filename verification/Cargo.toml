[package]
name = "stateful_firewall"
version = "0.1.0"
edition = "2021"
publish = false

[dependencies]
hashbrown = "=0.15.5"
netlink-sys = "=0.9.0"
netlink-packet-core = "=0.9.0"

[dev-dependencies]
rand = "=0.8.8"
