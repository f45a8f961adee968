[package]
name = "select_reactor"
version = "0.1.0"
edition = "2021"

[dependencies]
heapless = "0.8"
libc = "0.2"
log = "0.4"
enumset = "1"
