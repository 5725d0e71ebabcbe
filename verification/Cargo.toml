[package]
name = "blockifier_utils"
version = "0.1.0"
edition = "2021"
publish = false

[dependencies]
cairo-lang-sierra = "=2.14.0"
cairo-lang-starknet-classes = "=2.14.0"
cairo-lang-utils = "=2.14.0"
serde_json = "=1.0.151"
sha3 = "=0.10.9"
starknet-crypto = "=0.8.1"
starknet-types-core = "=0.1.5"
starknet_api = "=0.13.0-rc.1"
