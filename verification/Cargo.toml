[package]
name = "elinos"
version = "0.1.0"
edition = "2021"
publish = false

[dependencies]
heapless = "0.8"
spin = "0.9"
lazy_static = "1.4"
linked_list_allocator = "0.10"
