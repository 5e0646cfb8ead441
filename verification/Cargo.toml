[package]
name = "async-tftp"
version = "0.4.2"
edition = "2021"
publish = false

[dependencies]
async-io = "2"
bytes = "1"
futures-lite = "2"
log = "0.4"
