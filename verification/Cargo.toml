[package]
name = "bzipper"
version = "0.1.0"
edition = "2021"
publish = false

[dependencies]
bincode = "1"
borsh = { version = "1", features = ["derive"] }
ciborium = "0.2"
postcard = { version = "1", features = ["use-std"] }
rand = "0.8"
serde = { version = "1", features = ["derive"] }
