[package]
name = "zk_auth"
version = "0.1.0"
edition = "2021"
publish = false

[dependencies]
num-bigint = { version = "0.4", features = ["rand"] }
num-primes = "0.3"
num-traits = "0.2"
rand = "0.8"
