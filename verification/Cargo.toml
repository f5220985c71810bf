[package]
name = "math_core"
version = "0.1.0"
edition = "2021"
publish = false

[dependencies]
stable-arena = "*"
memchr = "*"
dtoa = "*"
rustc-hash = "*"
serde = { version = "1", features = ["derive"] }
phf = { version = "*", features = ["macros"] }
strum_macros = "*"
