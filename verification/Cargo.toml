[package]
name = "darkside"
version = "0.1.0"
edition = "2021"
publish = false

[dependencies]
futures-util = "0.3"
hex = "0.4"
http = "0.2"
http-body = "0.4"
hyper = { version = "0.14", features = ["client", "http2", "tcp"] }
incrementalmerkletree = { version = "*", features = ["legacy-api"] }
orchard = "*"
portpicker = "0.1"
prost = "0.12"
sapling-crypto = "*"
serde_json = "1"
tempdir = "0.3"
tokio = { version = "1", features = ["time"] }
tonic = "0.10"
tower = { version = "0.4", features = ["util"] }
zcash_primitives = "*"
zcash_protocol = "*"
