[package]
name = "sfo_io"
version = "0.1.0"
edition = "2021"
publish = false

[dependencies]
async-trait = "0.1"
governor = "0.10"
log = "0.4"
sfo-result = "*"
sfo-split = "*"
shlex = "1"
tokio = { version = "1", features = ["full"] }
