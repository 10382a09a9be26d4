[package]
name = "obamas"
version = "0.1.0"
edition = "2021"
publish = false

[dependencies]
bootloader = { version = "=0.9.35", features = ["map_physical_memory"] }
linked_list_allocator = { version = "=0.10.6", default-features = false }
pc-keyboard = "=0.5.1"
pic8259 = "*"
rand_core = "=0.5.1"
rand_hc = "=0.2.0"
uart_16550 = "=0.9.0"
x86_64 = { version = "=0.15.5", default-features = false, features = ["instructions"] }
