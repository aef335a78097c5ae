[package]
name = "execguard"
version = "0.1.0"
edition = "2021"
publish = false

[dependencies]
serde_json = "=1.0.154"
serde = { version = "=1.0.229", features = ["derive"] }
anyhow = "=1.0.104"
tokio = { version = "=1.54.1", features = ["rt-multi-thread", "macros", "sync", "time", "signal"] }
wasmtime = { version = "=46.0.3", default-features = false, features = ["cranelift", "runtime", "std"] }
aya = "=0.13.1"
aya-log = "=0.2.1"
aya-ebpf = "0.1"
libc = "=0.2.191"
clap = { version = "=4.6.7", features = ["derive"] }
env_logger = "=0.11.11"
log = "=0.4.35"
