[package]
name = "motion_daemon"
version = "0.1.0"
edition = "2021"
publish = false

[dependencies]
ethercrab = "0.6"
smol = "2"
libc = "0.2"
