[package]
name = "bp3d_os"
version = "1.0.0"
edition = "2021"
publish = false

[dependencies]
libc = "0.2"
