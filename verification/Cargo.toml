[package]
name = "minilang"
version = "0.1.0"
edition = "2021"
publish = false

[dependencies]
rug = { version = "=1.19.2", default-features = false, features = ["integer"] }
gmp-mpfr-sys = { version = "=1.5.3", default-features = false, features = ["use-system-libs"] }
dashu-float = "=0.6.2"
dashu-int = "=0.6.2"
colored = "=3.1.1"

[dev-dependencies]
santiago = "=1.3.1"
