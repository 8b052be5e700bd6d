[package]
name = "zvault"
version = "0.1.0"
edition = "2021"
publish = false

[dependencies]
anyhow = "=1.0.104"
base58check = "=0.1.0"
blake2b_simd = "=1.0.5"
orchard = "=0.15.5"
rand_chacha = "=0.3.1"
rand_core = { version = "=0.6.4", features = ["getrandom"] }
reqwest = { version = "=0.13.5", default-features = false, features = ["json"] }
ripemd = "=0.1.3"
sapling-crypto = "=0.7.0"
secp256k1 = "=0.29.1"
serde = { version = "=1.0.229", features = ["derive"] }
serde_json = "=1.0.151"
sha2 = "=0.10.9"
tokio = { version = "=1.53.2", features = ["rt"] }
uuid = { version = "=1.27.0", features = ["v4"] }
zcash_address = "=0.13.0"
zcash_keys = { version = "=0.16.1", features = ["orchard", "sapling"] }
zcash_note_encryption = "=0.4.2"
zcash_primitives = { version = "=0.30.1", features = ["transparent-inputs"] }
zcash_proofs = { version = "=0.30.0", features = ["local-prover"] }
zcash_protocol = "=0.10.6"
zcash_script = "=0.4.5"
zcash_transparent = "=0.10.0"
