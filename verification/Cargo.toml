[package]
name = "xc3_lib"
version = "0.1.0"
edition = "2021"
publish = false

[dependencies]
tegra_swizzle = "*"
flate2 = "*"
