[package]
name = "contract_watch"
version = "0.1.0"
edition = "2021"
publish = false

[dependencies]
chrono = { version = "=0.4.45", default-features = false, features = ["now"] }
ethers = { version = "=2.0.14", default-features = false }
eyre = "=0.6.14"
futures = "=0.3.34"
tokio = { version = "=1.54.1", features = ["macros", "rt-multi-thread", "sync", "time"] }
web3 = { version = "=0.19.0", default-features = false, features = ["ws-tls-tokio"] }
