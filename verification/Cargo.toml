[package]
name = "chain_fusion"
version = "0.1.0"
edition = "2021"
publish = false

[dependencies]
candid = "=0.10.39"
ethers-core = "=2.0.14"
evm-rpc-canister-types = "=1.0.0"
ic-cdk = "=0.14.2"
ic-evm-utils = "=1.0.0"

[dev-dependencies]
serde_json = "=1.0.154"
