[package]
name = "response_decoder"
version = "0.1.0"
edition = "2021"
publish = false

[dependencies]
http = "0.2"
http_parser = "*"
async-std = "1"
log = "0.4"
