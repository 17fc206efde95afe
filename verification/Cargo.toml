[package]
name = "stellar_handshake"
version = "0.1.0"
edition = "2021"
publish = false

[dependencies]
anyhow = "*"
bytes = "*"
clap = { version = "*", features = ["derive", "cargo"] }
config = "*"
data-encoding = "*"
dryoc = "*"
log = "*"
ring = "*"
serde = { version = "*", features = ["derive"] }
serde-aux = "*"
simple_logger = "*"
thiserror = "*"
tokio = { version = "*", features = ["net", "io-util", "rt-multi-thread", "macros"] }
