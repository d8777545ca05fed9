[package]
name = "factorial"
version = "0.1.0"
edition = "2021"

[dependencies]
primal-sieve = "*"
num-bigint = "*"
