[package]
name = "code_traces"
version = "0.1.0"
edition = "2021"
publish = false

[dependencies]
alloy = { version = "*", default-features = false, features = ["rpc-types-trace"] }
async-trait = "0.1"
