[package]
name = "indy_credx_issuer"
version = "0.1.0"
edition = "2021"
publish = false

[dependencies]
indy-data-types = { version = "=0.6.1", features = ["cl_native"] }
indy-utils = "=0.6.0"
serde_json = "1"
