[package]
name = "trust"
version = "0.1.0"
edition = "2021"
publish = false

[dependencies]
etherparse = "=0.13.0"
tun-tap = "*"
