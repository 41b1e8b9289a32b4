[package]
name = "maarch64"
version = "0.1.0"
edition = "2021"
publish = false
rust-version = "1.95"

[dependencies]
bad64 = "=0.13.0"
object = "=0.40.0"
libc = "=0.2.191"
thiserror = "=2.0.21"
tracing = "=0.1.44"
cranelift-codegen = "=0.132.3"
cranelift-frontend = "=0.132.3"
cranelift-jit = "=0.132.3"
cranelift-module = "=0.132.3"
