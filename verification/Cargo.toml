[package]
name = "rabble"
version = "0.1.0"
edition = "2021"
publish = false

[dependencies]
orset = "=0.2.0"
serde = { version = "=1.0.229", features = ["derive"] }
rmp-serde = "=1.3.1"
amy = "=0.10.0"
net2 = "=0.2.39"
libc = "=0.2.191"
slog = "=2.8.2"
protobuf = "=2.28.0"
