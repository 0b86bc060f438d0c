[package]
name = "anon_deposit"
version = "0.1.0"
edition = "2021"
publish = false

[dependencies]
bincode = "=1.3.3"
rayon = "=1.12.0"
sha3 = "=0.10.9"

[dev-dependencies]
ethabi = "=18.0.0"
hex = "=0.4.3"
