[package]
name = "staking_pool"
version = "0.1.0"
edition = "2021"
publish = false

[dependencies]
near-sdk = "=0.10.0"
borsh = "=0.6.2"
serde = { version = "=1.0.229", features = ["derive"] }
serde_json = "=1.0.154"
wee_alloc = "=0.4.5"

# borsh 0.6 needs `syn::export`, which later releases of syn 1 no longer have.
[dev-dependencies]
syn = "=1.0.57"
