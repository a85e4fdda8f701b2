[package]
name = "chat_state"
version = "0.1.0"
edition = "2021"
publish = false

[dependencies]
bincode = "1.3"
futures = "0.3"
libp2p = { version = "0.56", default-features = false, features = ["floodsub", "macros", "mdns", "noise", "tcp", "tokio", "yamux"] }
log = "0.4"
tokio = { version = "1", features = ["io-std", "io-util", "macros", "rt", "rt-multi-thread", "signal", "sync"] }
