[package]
name = "thor-rs-assist"
version = "0.1.0"
edition = "2021"
publish = false

[dependencies]
assist-rs = "*"
hyperjet = "*"
log = "0.4"
thor-rs-propagator = "*"
