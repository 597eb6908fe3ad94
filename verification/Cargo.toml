[package]
name = "community_store"
version = "0.1.0"
edition = "2021"
publish = false

[dependencies]
bs58 = "0.5"
candid = "0.10"
easy-hasher = "2.2"
ed25519-dalek = "2"
hex = "0.4"
ic-cdk = "0.13"
libsecp256k1 = "0.7"
serde = { version = "1", features = ["derive"] }
