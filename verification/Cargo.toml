[package]
name = "everything_search"
version = "0.1.0"
edition = "2021"
publish = false

[dependencies]
chrono = "0.4"
everything-rs = "*"
everything-sys-bindgen = "*"
derive_more = { version = "*", features = ["display"] }
