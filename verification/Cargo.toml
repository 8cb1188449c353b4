[package]
name = "program_stark"
version = "0.1.0"
edition = "2021"
publish = false

[dependencies]
plonky2 = "0.2"
starky = "=0.4.0"

[dev-dependencies]
anyhow = "=1.0.104"
