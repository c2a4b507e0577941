[package]
name = "ggrs_kad"
version = "0.1.0"
edition = "2021"
publish = false

[dependencies]
libp2p = { version = "=0.53.2", default-features = false, features = ["ed25519", "kad", "mdns", "async-std", "tcp", "dns", "noise", "yamux", "macros"] }
ggrs = "=0.9.4"
bytemuck = { version = "1", features = ["derive"] }
structopt = "0.3"
async-std = { version = "1", features = ["attributes"] }
futures = "0.3"
env_logger = "0.9"
