[package]
name = "gleamler"
version = "0.1.0"
edition = "2021"
publish = false

[dependencies]
syn = { version = "2", features = ["full", "parsing"] }
quote = "1"
proc-macro2 = "1"
serde = "1"
uuid = "1"
bytes = "1"
rust_decimal = "1"
num-bigint = "0.4"
