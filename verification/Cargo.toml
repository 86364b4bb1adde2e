[package]
name = "tcp_events"
version = "0.1.0"
edition = "2021"
publish = false

[dependencies]
bytes = "1"
shrev = "1"
log = "0.4"
