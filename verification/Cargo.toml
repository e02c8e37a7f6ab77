[package]
name = "chunked_gather"
version = "0.1.0"
edition = "2021"
publish = false

[dependencies]
hashbrown = "=0.15.5"
polars-arrow = "=0.46.0"
polars-utils = "=0.46.0"
polars-core = { version = "=0.46.0", default-features = false, features = ["dtype-i8", "dtype-i16", "dtype-u8", "dtype-u16", "dtype-struct", "dtype-array", "dtype-decimal", "object"] }
