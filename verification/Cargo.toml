[package]
name = "coldsnap"
version = "0.1.0"
edition = "2021"
publish = false

[dependencies]
sha2 = { version = "0.10", default-features = false }
rand_core = "0.6"
embedded-storage = "0.3"
linked_list_allocator = { version = "0.10", default-features = false }
