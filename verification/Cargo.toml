[package]
name = "badge"
version = "0.1.0"
edition = "2021"
publish = false

[dependencies]
embedded-hal = "=1.0.0"
embedded-graphics = "=0.8.2"
rkyv = "=0.8.18"
uuid = "=1.29.0"
trouble-host = "=0.8.0"
static_cell = "2"
bt-hci = "=0.10.1"
