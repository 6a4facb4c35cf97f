[package]
name = "freederation_nostr_backend"
version = "0.1.0"
edition = "2021"
publish = false

[dependencies]
bech32 = "0.11"
k256 = "0.13"
rand_chacha = "0.3"
rand_core = "0.6"
serde = "1"
serde_json = "1"
url = "2"
candid = "*"
ic-cdk = "*"
