[package]
name = "langcraft"
version = "0.1.0"
edition = "2021"
publish = false

[dependencies]
either = "=1.19.0"
lazy_static = "=1.5.1"
llvm-ir = { version = "=0.7.5", features = ["llvm-10"] }
llvm-sys = { version = "=100.2.4", features = ["no-llvm-linking"] }
