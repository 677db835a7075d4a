[package]
name = "side_channel"
version = "0.1.0"
edition = "2021"
publish = false

[dependencies]
clap = "2.33"
log = "0.4"
memflow = "0.2"
simple_logger = "*"
