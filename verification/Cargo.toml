[package]
name = "mccs"
version = "0.1.0"
edition = "2021"
publish = false

[dependencies]
anyhow = "1"
bincode = "1"
crossbeam = "0.8"
cuda-runtime-sys = "0.3.0-alpha.1"
dashmap = "5"
futures = "0.3"
ipc-channel = "0.16"
log = "0.4"
nix = "0.26"
serde = { version = "1", features = ["derive"] }
static_assertions = "1"
thiserror = "1"
uuid = { version = "1", features = ["v4"] }
