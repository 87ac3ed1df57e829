[package]
name = "helios_rpc"
version = "0.1.0"
edition = "2021"
publish = false

[dependencies]
alloy = { version = "=1.8.3", default-features = false, features = ["consensus", "eips", "json-rpc", "network", "provider-http", "reqwest", "rlp", "rpc-types-eth"] }
alloy-trie = { version = "=0.9.9", default-features = false }
async-trait = "=0.1.92"
eyre = { version = "=0.6.14", default-features = false }
futures = { version = "=0.3.34", default-features = false, features = ["std"] }
http = "=1.5.0"
jsonrpsee = { version = "=0.24.11", default-features = false, features = ["server"] }
serde_with = "=3.12.0"
tokio = { version = "=1.54.1", features = ["rt"] }
tower = { version = "=0.5.3", default-features = false }
url = "=2.5.8"
