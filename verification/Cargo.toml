[package]
name = "all_is_cubes"
version = "0.1.0"
edition = "2021"
publish = false
