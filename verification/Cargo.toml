[package]
name = "multisig_wallet"
version = "0.1.0"
edition = "2021"
publish = false

[dependencies]
alloy-sol-types = "=0.3.1"
mini-alloc = "=0.4.2"
ruint = "=1.12.3"
stylus-sdk = "=0.4.3"
