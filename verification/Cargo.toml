[package]
name = "wmemchr"
version = "0.1.0"
edition = "2021"
publish = false

[dependencies]
cfg-if = "1"
criterion = { version = "*", default-features = false }
packed_simd = "*"
wchar = "*"

[dev-dependencies]
quickcheck = "1"
