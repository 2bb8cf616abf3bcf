[package]
name = "shoot_out_your_life"
version = "0.1.0"
edition = "2021"
publish = false

[dependencies]
rand = "=0.6.5"
tetra = "=0.3.6"
lazy_static = "1"
log = "0.4"
simple_logger = "1"
color-backtrace = "*"
