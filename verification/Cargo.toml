[package]
name = "game_of_life"
version = "0.1.0"
edition = "2021"
publish = false

[dependencies]
rand = "=0.10.3"
wasm-bindgen = "=0.2.92"
