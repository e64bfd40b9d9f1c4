[package]
name = "seqgen"
version = "0.1.0"
edition = "2021"
publish = false

[dependencies]
cmsis-pack = "=0.7.2"
rhai = "=1.27.0"
simplelog = "=0.8.0"
