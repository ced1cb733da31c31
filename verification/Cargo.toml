[package]
name = "os"
version = "0.1.0"
edition = "2021"
publish = false

[dependencies]
bootloader = "=0.10.13"
conquer-once = "=0.3.2"
crossbeam-queue = "=0.3.14"
font8x8 = "=0.3.1"
futures-util = { version = "=0.3.34", default-features = false, features = ["alloc"] }
lazy_static = { version = "=1.5.1", features = ["spin_no_std"] }
linked_list_allocator = "=0.10.6"
owo-colors = "=3.5.0"
pc-keyboard = "=0.5.1"
pic8259 = "=0.11.0"
spin = "=0.9.9"
x86_64 = "=0.15.5"
