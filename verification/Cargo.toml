[package]
name = "cachet"
version = "0.1.0"
edition = "2021"
publish = false

[dependencies]
fixedbitset = "=0.4.2"
indent_write = "=2.2.0"
num-bigint = "=0.4.8"
petgraph = "=0.6.5"
