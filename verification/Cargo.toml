[package]
name = "jay_core"
version = "0.1.0"
edition = "2021"
publish = false

[dependencies]
uapi = "=0.2.14"
log = "=0.4.34"
thiserror = "=2.0.21"
bincode = "=2.0.1"
libloading = "=0.9.0"
