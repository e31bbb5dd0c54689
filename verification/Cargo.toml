[package]
name = "snap_sync"
version = "0.1.0"
edition = "2021"
publish = false

[dependencies]
alloy-primitives = "=1.7.3"
alloy-rlp = "=0.3.17"
alloy-trie = { version = "=0.9.9", features = ["ethereum"] }
thiserror = "=2.0.21"
tracing = "=0.1.44"
tokio = { version = "=1.54.1", features = ["sync", "time", "rt", "macros"] }
clap = { version = "=4.6.7", features = ["derive"] }
eyre = "=0.6.14"
futures = "=0.3.34"
