[package]
name = "stack_ptr"
version = "0.1.0"
edition = "2021"
publish = false
