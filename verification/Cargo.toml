[package]
name = "ed25519_speccheck"
version = "0.1.0"
edition = "2021"
publish = false

[dependencies]
anyhow = "1"
curve25519-dalek = "3"
env_logger = "0.7"
hex = "0.4"
log = "0.4"
rand = "0.7"
serde = "1"
serde_json = "1"
sha2 = "0.9"
string-builder = "*"

[dev-dependencies]
ed25519-dalek = "1"
ed25519-zebra = "2"
hacl-star = "*"
ring = "0.16"
untrusted = "0.7"
