[package]
name = "nftables_expr"
version = "0.1.0"
edition = "2021"
publish = false

[dependencies]
netlink-packet-core = "0.8"
