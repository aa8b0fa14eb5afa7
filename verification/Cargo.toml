[package]
name = "mvm_rpc"
version = "0.1.0"
edition = "2021"
publish = false

[dependencies]
anyhow = "=1.0.104"
bcs = "=0.2.1"
jsonrpsee = { version = "*", features = ["server", "macros"] }
move-core-types = "=0.0.3"
parity-scale-codec = { version = "=3.7.5", features = ["derive"] }
serde = { version = "=1.0.229", features = ["derive"] }
serde_json = "=1.0.154"
sp-core = { version = "=43.0.0", features = ["serde"] }
