[package]
name = "dns_resolver"
version = "0.1.0"
edition = "2021"
publish = false

[dependencies]
ethabi = "=18.0.0"
hex = "=0.4.3"
url = "=2.5.8"
trust-dns-resolver = "=0.23.2"

[dev-dependencies]
protobuf = "3"
