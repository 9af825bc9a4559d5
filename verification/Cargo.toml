[package]
name = "rfs_fuse"
version = "0.1.0"
edition = "2021"
publish = false

[dependencies]
fuser = "=0.15.1"
libc = "=0.2.190"
nix = { version = "=0.29.0", features = ["user"] }
thiserror = "=2.0.21"
tokio = { version = "=1.47.5", features = ["rt-multi-thread", "macros", "signal"] }
