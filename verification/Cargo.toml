[package]
name = "manytrace"
version = "0.1.1"
edition = "2021"
publish = false

[dependencies]
arc-swap = "1"
blazesym = "*"
bytes = "1"
clap = { version = "4", features = ["derive"] }
crossbeam = "0.8"
eyre = "0.6"
libbpf-rs = "0.25"
libbpf-sys = "1"
libc = "0.2"
nix = { version = "0.30", features = ["event", "fs", "mman", "socket", "uio"] }
plain = "0.2"
prost = "0.13"
rand = "0.8"
rkyv = "0.8"
serde = { version = "1", features = ["derive"] }
serde_json = "1"
spinning_top = "0.3"
thiserror = "2"
thread_local = "1"
toml = "0.8"
tracing = "0.1"
tracing-subscriber = { version = "0.3", features = ["env-filter"] }
