[package]
name = "opencl_loader"
version = "0.1.0"
edition = "2021"
publish = false

[dependencies]
dlopen2 = "*"
