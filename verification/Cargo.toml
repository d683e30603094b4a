[package]
name = "mega_p2p"
version = "0.1.0"
edition = "2021"
publish = false

[dependencies]
libp2p = { version = "*", default-features = false }
secp256k1 = { version = "*", features = ["rand"] }
sha1 = "*"
serde = { version = "*", features = ["derive"] }
serde_json = "*"
flate2 = "*"
clap = { version = "*", features = ["derive"] }
tokio = { version = "*", features = ["sync", "rt", "macros"] }
