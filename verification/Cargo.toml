[package]
name = "lucidmq"
version = "0.1.0"
edition = "2021"
publish = false

[dependencies]
bincode = "1.3"
serde = { version = "1", features = ["derive"] }
rand = "0.8"
capnp = "0.14"
clap = "3"
shlex = "1"
