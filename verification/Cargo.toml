[package]
name = "i3flash"
version = "0.1.0"
edition = "2021"
publish = false

[dependencies]
error-chain = "=0.12.4"
i3ipc = "=0.10.1"
structopt = "=0.3.26"
xcb = "0.10"
