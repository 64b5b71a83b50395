[package]
name = "tacky"
version = "0.1.0"
edition = "2021"
publish = false

[dependencies]
pb-rs = "=0.10.0"
heck = "=0.5.0"
prettyplease = "0.2"
proc-macro2 = "=1.0.107"
quote = "=1.0.47"
syn = { version = "=2.0.119", features = ["full"] }

[dev-dependencies]
prost = "=0.14.4"
bytes = "=1.12.1"
