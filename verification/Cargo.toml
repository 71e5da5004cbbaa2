[package]
name = "sgx_selector"
version = "0.1.0"
edition = "2021"
publish = false

[dependencies]
crossbeam-channel = "0.5"
async-usercalls = "*"
