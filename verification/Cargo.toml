[package]
name = "conformance_tool"
version = "0.1.0"
edition = "2021"
publish = false

[dependencies]
web3 = { version = "=0.19.0", default-features = false }
ethabi = "=18.0.0"
ethereum-types = "=0.14.1"
chrono = { version = "=0.4.45", features = ["serde"] }
dotenv = "=0.15.0"
postgres = { version = "=0.19.14", features = ["with-chrono-0_4"] }
rocket = { version = "=0.5.2", features = ["json"] }
