[package]
name = "kernel"
version = "0.1.0"
edition = "2021"
publish = false

[dependencies]
x86_64 = { version = "=0.14.13", default-features = false, features = ["instructions"] }
bootloader_api = "=0.11.17"
spin = "=0.9.9"
lazy_static = { version = "=1.5.1", features = ["spin_no_std"] }
conquer-once = { version = "=0.4.0", default-features = false }
crossbeam-queue = { version = "=0.3.14", default-features = false, features = ["alloc"] }
futures-util = { version = "=0.3.34", default-features = false, features = ["alloc"] }
linked_list_allocator = "=0.10.6"
pc-keyboard = "=0.7.0"
pic8259 = { version = "=0.10.4", default-features = false }
uart_16550 = "=0.3.2"
xmas-elf = "=0.9.1"
